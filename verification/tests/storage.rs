use kanshi::config::{Config, NetworkName};
use kanshi::services::data_store::{
    deleted, retrieved, stored, Backend, BackendCall, DataStorage, PostgresStorage, RedisStorage,
    ReplyForm, SqlCall, StorageError, StorageManager, StorageReply,
};
use kanshi::services::redis::{ClientError, RedisClient};
use kanshi::utils::conversions::Felt;
use serde_json::Value;
use std::collections::HashMap;

const UPSERT: &str = "INSERT INTO key_value_store (key, value) VALUES ($1, $2::jsonb) ON CONFLICT (key) DO UPDATE SET value = $2::jsonb";
const SELECT: &str = "SELECT value::text FROM key_value_store WHERE key = $1";
const DELETE: &str = "DELETE FROM key_value_store WHERE key = $1";

fn config(storage_url: &str) -> Config {
    Config {
        storage_url: storage_url.to_string(),
        apibara_key: "SECRET-REDACTED".to_string(),
        network: NetworkName::Mainnet,
        contract_address: Felt::from_hex("0x1").unwrap(),
        starting_block: 0,
        write_path: "indexer_state.json".to_string(),
    }
}

fn document() -> Value {
    let mut inner = serde_json::Map::new();
    inner.insert("last_processed_block".to_string(), Value::from(100u64));
    inner.insert("name".to_string(), Value::from("caf\u{e9} \"quoted\""));
    inner.insert("tags".to_string(), Value::Array(vec![Value::Null, Value::from(true), Value::from(-3)]));
    Value::Object(inner)
}

fn form(call: &BackendCall) -> ReplyForm {
    match call {
        BackendCall::Redis(_, form) => *form,
        BackendCall::Sql(_, form) => *form,
    }
}

fn args(call: &BackendCall) -> Vec<Vec<u8>> {
    match call {
        BackendCall::Redis(command, _) => command
            .args_iter()
            .map(|arg| match arg {
                redis::Arg::Simple(bytes) => bytes.to_vec(),
                _ => panic!("a cursor in a plain command"),
            })
            .collect(),
        BackendCall::Sql(_, _) => panic!("a statement where a command was expected"),
    }
}

fn sql(call: BackendCall) -> SqlCall {
    match call {
        BackendCall::Sql(call, _) => call,
        BackendCall::Redis(_, _) => panic!("a command where a statement was expected"),
    }
}

fn bytes(parts: &[&str]) -> Vec<Vec<u8>> {
    parts.iter().map(|p| p.as_bytes().to_vec()).collect()
}

/// A server that keeps texts under keys and answers the calls of either
/// backend. The relational one hands documents back in its own writing.
struct Server {
    kept: HashMap<String, String>,
}

impl Server {
    fn new() -> Server {
        Server { kept: HashMap::new() }
    }

    fn serve(&mut self, call: BackendCall) -> StorageReply {
        match call {
            BackendCall::Redis(command, form) => {
                let parts: Vec<String> = args(&BackendCall::Redis(command, form))
                    .into_iter()
                    .map(|b| String::from_utf8(b).unwrap())
                    .collect();
                match parts[0].as_str() {
                    "SET" => {
                        self.kept.insert(parts[1].clone(), parts[2].clone());
                        StorageReply::Done
                    }
                    "GET" => StorageReply::Text(self.kept.get(&parts[1]).cloned()),
                    "DEL" => StorageReply::Count(self.kept.remove(&parts[1]).is_some() as u64),
                    other => StorageReply::Failed(format!("unknown command {other}")),
                }
            }
            BackendCall::Sql(call, _) => match call.statement.as_str() {
                UPSERT => match serde_json::from_str::<Value>(&call.params[1]) {
                    Ok(_) => {
                        self.kept.insert(call.params[0].clone(), call.params[1].clone());
                        StorageReply::Done
                    }
                    Err(e) => StorageReply::Failed(format!("invalid input syntax for type json: {e}")),
                },
                SELECT => StorageReply::Text(self.kept.get(&call.params[0]).map(|text| {
                    let document: Value = serde_json::from_str(text).unwrap();
                    format!(" {} ", serde_json::to_string_pretty(&document).unwrap())
                })),
                DELETE => StorageReply::Count(self.kept.remove(&call.params[0]).is_some() as u64),
                other => StorageReply::Failed(format!("syntax error in {other}")),
            },
        }
    }
}

fn managers() -> Vec<StorageManager> {
    vec![
        StorageManager::new(&config("redis://127.0.0.1:6379")).expect("the key-value backend"),
        StorageManager::new(&config("postgres://user@localhost/db")).expect("the relational backend"),
    ]
}

#[test]
fn client_accepts_redis_addresses_only() {
    assert!(RedisClient::new("redis://127.0.0.1:6379").is_ok());
    assert!(RedisClient::new("redis://127.0.0.1/").is_ok());
    assert!(RedisClient::new("not an address").is_err());
    assert!(RedisClient::new("http://127.0.0.1:6379").is_err());
    assert!(RedisClient::new("").is_err());
    assert!(RedisStorage::new("redis://cache:6379").is_ok());
    assert!(RedisStorage::new("cache").is_err());
}

#[test]
fn client_keeps_the_address_it_was_made_with() {
    let client = RedisClient::new("redis://cache.internal:6380/2").unwrap();
    let info = client.client().get_connection_info();
    assert_eq!(info.addr().to_string(), "cache.internal:6380");
}

#[test]
fn client_commands() {
    let client = RedisClient::new("redis://127.0.0.1:6379").unwrap();
    assert_eq!(
        client.set("k", "v w").get_packed_command(),
        b"*3\r\n$3\r\nSET\r\n$1\r\nk\r\n$3\r\nv w\r\n".to_vec()
    );
    assert_eq!(client.get("key").get_packed_command(), b"*2\r\n$3\r\nGET\r\n$3\r\nkey\r\n".to_vec());
    assert_eq!(client.delete("key").get_packed_command(), b"*2\r\n$3\r\nDEL\r\n$3\r\nkey\r\n".to_vec());
    assert_eq!(client.check_connection().get_packed_command(), b"*1\r\n$4\r\nPING\r\n".to_vec());
    // a key of several bytes per character, and an empty value
    assert_eq!(
        client.set("cl\u{e9}", "").get_packed_command(),
        b"*3\r\n$3\r\nSET\r\n$4\r\ncl\xc3\xa9\r\n$0\r\n\r\n".to_vec()
    );
}

#[test]
fn client_reads_replies() {
    let client = RedisClient::new("redis://127.0.0.1:6379").unwrap();
    assert_eq!(client.connection_checked("PONG"), Ok(()));
    assert_eq!(client.connection_checked("pong"), Err(ClientError::UnexpectedResponse));
    assert_eq!(client.connection_checked(""), Err(ClientError::UnexpectedResponse));
    assert_eq!(client.connection_checked("PONG\n"), Err(ClientError::UnexpectedResponse));
    assert!(client.deleted(1));
    assert!(client.deleted(2));
    assert!(!client.deleted(0));
    assert!(!client.deleted(-1));
}

#[test]
fn address_selects_the_backend() {
    for url in ["postgres://user@host/db", "postgresql://host", "postgres", "postgres is not even an address"] {
        let manager = StorageManager::new(&config(url)).expect("the relational backend");
        match manager.backend() {
            Backend::Postgres(storage) => assert_eq!(storage.connection_string(), url),
            Backend::Redis(_) => panic!("{url} selected the key-value backend"),
        }
    }
    for url in ["redis://127.0.0.1:6379", "redis://cache", "redis://postgres"] {
        let manager = StorageManager::new(&config(url)).expect("the key-value backend");
        assert!(matches!(manager.backend(), Backend::Redis(_)), "{url}");
    }
}

#[test]
fn address_that_the_client_refuses_is_an_error() {
    for url in ["Postgres://host/db", "mysql://host", "", " postgres://host"] {
        match StorageManager::new(&config(url)) {
            Err(StorageError::Address(_)) => {}
            Err(other) => panic!("{url}: {other:?}"),
            Ok(_) => panic!("{url} was accepted"),
        }
    }
}

#[test]
fn redis_backend_calls() {
    let storage = RedisStorage::new("redis://127.0.0.1:6379").unwrap();
    let text = document().to_string();
    assert_eq!(args(&storage.store_json("state", document())), bytes(&["SET", "state", &text]));
    assert_eq!(args(&storage.retrieve_json("state")), bytes(&["GET", "state"]));
    assert_eq!(args(&storage.delete("state")), bytes(&["DEL", "state"]));
}

#[test]
fn postgres_backend_calls() {
    let storage = PostgresStorage::new("postgres://host/db");
    assert_eq!(storage.connection_string(), "postgres://host/db");
    assert_eq!(
        storage.schema_statement(),
        "CREATE TABLE IF NOT EXISTS key_value_store (key TEXT PRIMARY KEY, value JSONB NOT NULL)"
    );
    assert_eq!(
        sql(storage.store_json("state", document())),
        SqlCall { statement: UPSERT.to_string(), params: vec!["state".to_string(), document().to_string()] }
    );
    assert_eq!(
        sql(storage.retrieve_json("state")),
        SqlCall { statement: SELECT.to_string(), params: vec!["state".to_string()] }
    );
    assert_eq!(
        sql(storage.delete("state")),
        SqlCall { statement: DELETE.to_string(), params: vec!["state".to_string()] }
    );
}

#[test]
fn document_is_written_compactly() {
    let storage = RedisStorage::new("redis://127.0.0.1:6379").unwrap();
    let mut object = serde_json::Map::new();
    object.insert("a".to_string(), Value::from(1));
    let call = storage.store_json("k", Value::Object(object));
    assert_eq!(args(&call)[2], b"{\"a\":1}".to_vec());
}

#[test]
fn store_of_a_value_that_cannot_be_written_is_an_encoding_error() {
    let failure = serde_json::from_str::<Value>("{").unwrap_err();
    for manager in managers() {
        let again = serde_json::from_str::<Value>("{").unwrap_err();
        assert_eq!(failure.to_string(), again.to_string());
        match manager.store("k", Err(again)) {
            Err(StorageError::Encoding(e)) => assert_eq!(e.to_string(), failure.to_string()),
            Err(other) => panic!("{other:?}"),
            Ok(_) => panic!("a value that was never written was stored"),
        }
    }
}

#[test]
fn reply_to_a_store() {
    assert!(stored(StorageReply::Done).is_ok());
    assert!(matches!(
        stored(StorageReply::Failed("timeout".to_string())),
        Err(StorageError::Connection(m)) if m == "timeout"
    ));
    assert!(matches!(stored(StorageReply::Count(1)), Err(StorageError::UnexpectedReply)));
    assert!(matches!(stored(StorageReply::Text(None)), Err(StorageError::UnexpectedReply)));
}

#[test]
fn reply_to_a_retrieve() {
    assert_eq!(retrieved(StorageReply::Text(None)).unwrap(), None);
    assert_eq!(
        retrieved(StorageReply::Text(Some(" {\"a\": [1, 2]} ".to_string()))).unwrap(),
        Some(serde_json::from_str::<Value>("{\"a\":[1,2]}").unwrap())
    );
    assert!(matches!(
        retrieved(StorageReply::Text(Some("{\"a\":".to_string()))),
        Err(StorageError::Decoding(_))
    ));
    assert!(matches!(
        retrieved(StorageReply::Text(Some(String::new()))),
        Err(StorageError::Decoding(_))
    ));
    assert!(matches!(
        retrieved(StorageReply::Failed("refused".to_string())),
        Err(StorageError::Connection(m)) if m == "refused"
    ));
    assert!(matches!(retrieved(StorageReply::Done), Err(StorageError::UnexpectedReply)));
    assert!(matches!(retrieved(StorageReply::Count(0)), Err(StorageError::UnexpectedReply)));
}

#[test]
fn reply_to_a_delete() {
    assert_eq!(deleted(StorageReply::Count(1)).unwrap(), true);
    assert_eq!(deleted(StorageReply::Count(3)).unwrap(), true);
    assert_eq!(deleted(StorageReply::Count(0)).unwrap(), false);
    assert!(matches!(
        deleted(StorageReply::Failed("gone".to_string())),
        Err(StorageError::Connection(m)) if m == "gone"
    ));
    assert!(matches!(deleted(StorageReply::Done), Err(StorageError::UnexpectedReply)));
    assert!(matches!(deleted(StorageReply::Text(None)), Err(StorageError::UnexpectedReply)));
}

#[test]
fn document_of_the_wrong_shape_is_a_decoding_error() {
    let wrong = serde_json::from_value::<u64>(Value::from("text")).unwrap_err();
    assert!(matches!(StorageManager::decoded::<u64>(Err(wrong)), Err(StorageError::Decoding(_))));
    assert_eq!(StorageManager::decoded(serde_json::from_value::<u64>(Value::from(5))).unwrap(), 5);
}

#[test]
fn retrieve_after_store_gives_the_document_back() {
    for manager in managers() {
        let mut server = Server::new();
        let call = manager.store("state", Ok(document())).unwrap();
        assert!(stored(server.serve(call)).is_ok());
        let found = retrieved(server.serve(manager.retrieve("state"))).unwrap();
        assert_eq!(found, Some(document()));
        // another key is not there
        assert_eq!(retrieved(server.serve(manager.retrieve("other"))).unwrap(), None);
    }
}

#[test]
fn store_replaces_what_was_stored() {
    for manager in managers() {
        let mut server = Server::new();
        stored(server.serve(manager.store("k", Ok(Value::from(1))).unwrap())).unwrap();
        stored(server.serve(manager.store("k", Ok(Value::from("two"))).unwrap())).unwrap();
        assert_eq!(
            retrieved(server.serve(manager.retrieve("k"))).unwrap(),
            Some(Value::from("two"))
        );
        assert_eq!(server.kept.len(), 1);
    }
}

#[test]
fn delete_says_whether_the_key_was_there() {
    for manager in managers() {
        let mut server = Server::new();
        assert_eq!(deleted(server.serve(manager.delete("k"))).unwrap(), false);
        stored(server.serve(manager.store("k", Ok(document())).unwrap())).unwrap();
        assert_eq!(deleted(server.serve(manager.delete("k"))).unwrap(), true);
        assert_eq!(retrieved(server.serve(manager.retrieve("k"))).unwrap(), None);
        assert_eq!(deleted(server.serve(manager.delete("k"))).unwrap(), false);
    }
}

#[test]
fn checkpoint_record_can_be_kept_in_the_store() {
    for manager in managers() {
        let mut server = Server::new();
        let record = kanshi::checkpoint::save_block_state(100);
        let value: Value = serde_json::from_slice(&record).unwrap();
        stored(server.serve(manager.store("indexer_state", Ok(value)).unwrap())).unwrap();
        let found = retrieved(server.serve(manager.retrieve("indexer_state"))).unwrap().unwrap();
        let text = found.to_string();
        assert_eq!(kanshi::checkpoint::load_block_state(Some(text.as_bytes())), Ok(Some(100)));
    }
}

#[test]
fn storage_client_is_the_one_for_its_address() {
    let storage = RedisStorage::new("redis://cache.internal:6380/2").unwrap();
    let info = storage.client().client().get_connection_info();
    assert_eq!(info.addr().to_string(), "cache.internal:6380");
    let local = RedisStorage::new("redis://127.0.0.1:6379").unwrap();
    let info = local.client().client().get_connection_info();
    assert_eq!(info.addr().to_string(), "127.0.0.1:6379");
}

#[test]
fn relational_backend_asks_in_statements_only() {
    let storage = PostgresStorage::new("postgres://host/db");
    assert!(matches!(storage.store_json("k", document()), BackendCall::Sql(_, ReplyForm::Nothing)));
    assert!(matches!(storage.retrieve_json("k"), BackendCall::Sql(_, ReplyForm::Text)));
    assert!(matches!(storage.delete("k"), BackendCall::Sql(_, ReplyForm::Count)));
    let manager = StorageManager::new(&config("postgres://host/db")).unwrap();
    let call = manager.store("k", Ok(document())).unwrap();
    assert_eq!(form(&call), ReplyForm::Nothing);
    assert_eq!(sql(call).statement, UPSERT);
    assert_eq!(sql(manager.retrieve("k")).statement, SELECT);
    assert_eq!(sql(manager.delete("k")).statement, DELETE);
}

#[test]
fn key_value_backend_asks_in_commands_only() {
    let storage = RedisStorage::new("redis://127.0.0.1:6379").unwrap();
    assert!(matches!(storage.store_json("k", document()), BackendCall::Redis(_, ReplyForm::Nothing)));
    assert!(matches!(storage.retrieve_json("k"), BackendCall::Redis(_, ReplyForm::Text)));
    assert!(matches!(storage.delete("k"), BackendCall::Redis(_, ReplyForm::Count)));
    let manager = StorageManager::new(&config("redis://127.0.0.1:6379")).unwrap();
    assert_eq!(args(&manager.store("k", Ok(document())).unwrap())[0], b"SET".to_vec());
    assert_eq!(form(&manager.retrieve("k")), ReplyForm::Text);
    assert_eq!(args(&manager.retrieve("k"))[0], b"GET".to_vec());
    assert_eq!(form(&manager.delete("k")), ReplyForm::Count);
    assert_eq!(args(&manager.delete("k"))[0], b"DEL".to_vec());
}

#[test]
fn manager_holds_the_backend_for_its_address() {
    let manager = StorageManager::new(&config("redis://cache.internal:6380/2")).unwrap();
    match manager.backend() {
        Backend::Redis(storage) => {
            let info = storage.client().client().get_connection_info();
            assert_eq!(info.addr().to_string(), "cache.internal:6380");
        }
        Backend::Postgres(_) => panic!("the relational backend for a redis address"),
    }
    let manager = StorageManager::new(&config("postgres://user@db.internal/kv")).unwrap();
    match manager.backend() {
        Backend::Postgres(storage) => {
            assert_eq!(storage.connection_string(), "postgres://user@db.internal/kv")
        }
        Backend::Redis(_) => panic!("the key-value backend for a postgres address"),
    }
}

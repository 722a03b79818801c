//! The typed object store: JSON documents under string keys, kept by one of
//! two backends.
//!
//! The store talks to no server itself. Each operation comes in two halves:
//! one that says what to ask of the backend, and one that reads the
//! backend's reply. The caller carries the question to the server and the
//! reply back.

use vstd::prelude::*;
use crate::config::Config;
use crate::services::redis::{
    cmd_args,
    del_args,
    get_args,
    opened_client,
    redis_url_accepted,
    set_args,
    RedisClient,
};
use crate::utils::text::{begins_with, starts_with};

verus! {

#[verifier::external_type_specification]
#[verifier::external_body]
pub struct ExJsonValue(::serde_json::Value);

#[verifier::external_type_specification]
#[verifier::external_body]
pub struct ExJsonError(::serde_json::Error);

/// The text that a JSON document is written as.
pub uninterp spec fn json_text(document: ::serde_json::Value) -> Seq<char>;

/// The written form of the document that a text is read as, or nothing for a
/// text that is not JSON.
pub uninterp spec fn json_parse(text: Seq<char>) -> Option<Seq<char>>;

/// Writes a document as text. This is `to_string` on a `serde_json::Value`.
/// The text depends on the document alone.
#[verifier::external_body]
fn json_to_string(document: &::serde_json::Value) -> (text: String)
    ensures
        text@ == json_text(*document),
{
    document.to_string()
}

/// Reads a text as a document. This is `serde_json::from_str` for a
/// `serde_json::Value`. Whether the text is accepted, and as which document,
/// depends on the text alone.
#[verifier::external_body]
fn json_from_str(text: &str) -> (r: Result<::serde_json::Value, ::serde_json::Error>)
    ensures
        match r {
            Ok(document) => json_parse(text@) == Some(json_text(document)),
            Err(_) => json_parse(text@) is None,
        },
{
    ::serde_json::from_str(text)
}

/// Why an operation of the store failed.
#[derive(Debug)]
pub enum StorageError {
    /// The value could not be written as JSON.
    Encoding(::serde_json::Error),
    /// What is stored could not be read as JSON of the requested shape.
    Decoding(::serde_json::Error),
    /// The backend could not be reached, or reported a failure.
    Connection(String),
    /// The backend replied with something that does not answer the question.
    UnexpectedReply,
    /// The key-value server's address was not accepted.
    Address(::redis::RedisError),
}

/// The mathematical content of a [`StorageError`].
pub enum StorageErrorView {
    Encoding,
    Decoding,
    Connection(Seq<char>),
    UnexpectedReply,
    Address,
}

impl View for StorageError {
    type V = StorageErrorView;

    open spec fn view(&self) -> StorageErrorView {
        match *self {
            StorageError::Encoding(_) => StorageErrorView::Encoding,
            StorageError::Decoding(_) => StorageErrorView::Decoding,
            StorageError::Connection(m) => StorageErrorView::Connection(m@),
            StorageError::UnexpectedReply => StorageErrorView::UnexpectedReply,
            StorageError::Address(_) => StorageErrorView::Address,
        }
    }
}

/// What is asked of a backend, whichever backend it is.
pub enum StorageRequest {
    /// Store the text under the key, replacing what is there.
    Put { key: Seq<char>, text: Seq<char> },
    /// Give the text under the key.
    Get { key: Seq<char> },
    /// Remove the key.
    Delete { key: Seq<char> },
}

/// A statement for the relational backend with the values of its parameters.
#[derive(Debug, Clone, PartialEq, Eq)]
pub struct SqlCall {
    pub statement: String,
    pub params: Vec<String>,
}

/// The mathematical content of a [`SqlCall`].
pub struct SqlCallView {
    pub statement: Seq<char>,
    pub params: Seq<Seq<char>>,
}

impl View for SqlCall {
    type V = SqlCallView;

    open spec fn view(&self) -> SqlCallView {
        SqlCallView {
            statement: self.statement@,
            params: Seq::new(self.params@.len(), |i: int| self.params@[i]@),
        }
    }
}

/// The statement that makes the table of the relational backend if it is not
/// there yet: text keys, each at most once, and a JSON value for each.
pub const SCHEMA_SQL: &'static str =
    "CREATE TABLE IF NOT EXISTS key_value_store (key TEXT PRIMARY KEY, value JSONB NOT NULL)";

/// The statement that inserts a key with its value, or replaces the value
/// when the key is there already.
pub const UPSERT_SQL: &'static str =
    "INSERT INTO key_value_store (key, value) VALUES ($1, $2::jsonb) \
     ON CONFLICT (key) DO UPDATE SET value = $2::jsonb";

/// The statement that selects the value of a key as text.
pub const SELECT_SQL: &'static str = "SELECT value::text FROM key_value_store WHERE key = $1";

/// The statement that deletes a key.
pub const DELETE_SQL: &'static str = "DELETE FROM key_value_store WHERE key = $1";

/// How a request is put to the relational backend.
pub open spec fn sql_call(request: StorageRequest) -> SqlCallView {
    match request {
        StorageRequest::Put { key, text } => SqlCallView {
            statement: UPSERT_SQL@,
            params: seq![key, text],
        },
        StorageRequest::Get { key } => SqlCallView { statement: SELECT_SQL@, params: seq![key] },
        StorageRequest::Delete { key } => SqlCallView {
            statement: DELETE_SQL@,
            params: seq![key],
        },
    }
}

/// How a request is put to the key-value server: the arguments of the
/// command.
pub open spec fn redis_call(request: StorageRequest) -> Seq<Seq<u8>> {
    match request {
        StorageRequest::Put { key, text } => set_args(key, text),
        StorageRequest::Get { key } => get_args(key),
        StorageRequest::Delete { key } => del_args(key),
    }
}

/// The form of the reply that a call is to be answered with.
#[derive(Debug, Clone, Copy, PartialEq, Eq, Structural)]
pub enum ReplyForm {
    /// Nothing but that the request was carried out: [`StorageReply::Done`].
    Nothing,
    /// The text found, if any: [`StorageReply::Text`].
    Text,
    /// The number removed: [`StorageReply::Count`].
    Count,
}

/// The form of the reply to a request.
pub open spec fn reply_form(request: StorageRequest) -> ReplyForm {
    match request {
        StorageRequest::Put { .. } => ReplyForm::Nothing,
        StorageRequest::Get { .. } => ReplyForm::Text,
        StorageRequest::Delete { .. } => ReplyForm::Count,
    }
}

/// A question in the form in which one backend takes it, with the form of
/// the reply that answers it.
pub enum BackendCall {
    /// A command for the key-value server.
    Redis(::redis::Cmd, ReplyForm),
    /// A statement for the relational server.
    Sql(SqlCall, ReplyForm),
}

impl BackendCall {
    /// True when this call puts `request` to its backend and expects the
    /// reply in the request's form.
    pub open spec fn asks(self, request: StorageRequest) -> bool {
        match self {
            BackendCall::Redis(command, form) => cmd_args(command) == redis_call(request) && form
                == reply_form(request),
            BackendCall::Sql(call, form) => call@ == sql_call(request) && form == reply_form(
                request,
            ),
        }
    }
}

/// What a backend replied.
#[derive(Debug, Clone, PartialEq, Eq)]
pub enum StorageReply {
    /// The request was carried out and has no answer.
    Done,
    /// The text under the key, or nothing when the key is not there.
    Text(Option<String>),
    /// The number of keys or rows that the request removed.
    Count(u64),
    /// The backend could not be reached, or reported a failure.
    Failed(String),
}

/// The result of a store, read from the backend's reply.
pub open spec fn store_outcome(reply: StorageReply) -> Result<(), StorageErrorView> {
    match reply {
        StorageReply::Done => Ok(()),
        StorageReply::Failed(m) => Err(StorageErrorView::Connection(m@)),
        _ => Err(StorageErrorView::UnexpectedReply),
    }
}

/// The result of a retrieve, read from the backend's reply: the written form
/// of the document found, nothing when the key is not there, and a decoding
/// error when what is there is not JSON.
pub open spec fn retrieve_outcome(reply: StorageReply) -> Result<
    Option<Seq<char>>,
    StorageErrorView,
> {
    match reply {
        StorageReply::Text(None) => Ok(None),
        StorageReply::Text(Some(text)) => match json_parse(text@) {
            Some(document) => Ok(Some(document)),
            None => Err(StorageErrorView::Decoding),
        },
        StorageReply::Failed(m) => Err(StorageErrorView::Connection(m@)),
        _ => Err(StorageErrorView::UnexpectedReply),
    }
}

/// The result of a delete, read from the backend's reply: whether anything
/// was removed.
pub open spec fn delete_outcome(reply: StorageReply) -> Result<bool, StorageErrorView> {
    match reply {
        StorageReply::Count(n) => Ok(n > 0),
        StorageReply::Failed(m) => Err(StorageErrorView::Connection(m@)),
        _ => Err(StorageErrorView::UnexpectedReply),
    }
}

/// Reads the reply to a store.
pub fn stored(reply: StorageReply) -> (r: Result<(), StorageError>)
    ensures
        match r {
            Ok(_) => store_outcome(reply) is Ok,
            Err(e) => store_outcome(reply) == Err::<(), StorageErrorView>(e@),
        },
{
    match reply {
        StorageReply::Done => Ok(()),
        StorageReply::Failed(message) => Err(StorageError::Connection(message)),
        _ => Err(StorageError::UnexpectedReply),
    }
}

/// Reads the reply to a retrieve.
pub fn retrieved(reply: StorageReply) -> (r: Result<Option<::serde_json::Value>, StorageError>)
    ensures
        match r {
            Ok(Some(document)) => retrieve_outcome(reply) == Ok::<
                Option<Seq<char>>,
                StorageErrorView,
            >(Some(json_text(document))),
            Ok(None) => retrieve_outcome(reply) == Ok::<Option<Seq<char>>, StorageErrorView>(None),
            Err(e) => retrieve_outcome(reply) == Err::<Option<Seq<char>>, StorageErrorView>(e@),
        },
{
    match reply {
        StorageReply::Text(None) => Ok(None),
        StorageReply::Text(Some(text)) => match json_from_str(text.as_str()) {
            Ok(document) => Ok(Some(document)),
            Err(e) => Err(StorageError::Decoding(e)),
        },
        StorageReply::Failed(message) => Err(StorageError::Connection(message)),
        _ => Err(StorageError::UnexpectedReply),
    }
}

/// Reads the reply to a delete: `true` exactly when the key was there.
pub fn deleted(reply: StorageReply) -> (r: Result<bool, StorageError>)
    ensures
        match r {
            Ok(removed) => delete_outcome(reply) == Ok::<bool, StorageErrorView>(removed),
            Err(e) => delete_outcome(reply) == Err::<bool, StorageErrorView>(e@),
        },
{
    match reply {
        StorageReply::Count(n) => Ok(n > 0),
        StorageReply::Failed(message) => Err(StorageError::Connection(message)),
        _ => Err(StorageError::UnexpectedReply),
    }
}

/// A backend of the store: what it is asked for each operation on documents.
pub trait DataStorage {
    /// The call that stores `value` under `key`, replacing what is there.
    fn store_json(&self, key: &str, value: ::serde_json::Value) -> (call: BackendCall)
        ensures
            call.asks(StorageRequest::Put { key: key@, text: json_text(value) }),
    ;

    /// The call that asks for the document under `key`.
    fn retrieve_json(&self, key: &str) -> (call: BackendCall)
        ensures
            call.asks(StorageRequest::Get { key: key@ }),
    ;

    /// The call that removes `key`.
    fn delete(&self, key: &str) -> (call: BackendCall)
        ensures
            call.asks(StorageRequest::Delete { key: key@ }),
    ;
}

/// The backend that keeps documents on a key-value server, each as the text
/// under its key.
pub struct RedisStorage {
    client: RedisClient,
}

impl RedisStorage {
    /// The client through which the backend reaches its server.
    pub closed spec fn redis_client(&self) -> RedisClient {
        self.client
    }

    /// The backend for the server at `redis_url`.
    pub fn new(redis_url: &str) -> (r: Result<RedisStorage, ::redis::RedisError>)
        ensures
            r is Ok <==> redis_url_accepted(redis_url@),
            r matches Ok(storage) ==> opened_client(redis_url@) == Some(
                storage.redis_client().connection(),
            ),
    {
        match RedisClient::new(redis_url) {
            Ok(client) => Ok(RedisStorage { client }),
            Err(e) => Err(e),
        }
    }

    /// The backend's client: the one for the address the backend was made
    /// with.
    pub fn client(&self) -> (r: &RedisClient)
        ensures
            *r == self.redis_client(),
    {
        &self.client
    }
}

impl DataStorage for RedisStorage {
    /// One `SET` command: the server overwrites what is under the key.
    fn store_json(&self, key: &str, value: ::serde_json::Value) -> (call: BackendCall)
        ensures
            call is Redis,
    {
        let serialized = json_to_string(&value);
        BackendCall::Redis(self.client.set(key, serialized.as_str()), ReplyForm::Nothing)
    }

    /// One `GET` command.
    fn retrieve_json(&self, key: &str) -> (call: BackendCall)
        ensures
            call is Redis,
    {
        BackendCall::Redis(self.client.get(key), ReplyForm::Text)
    }

    /// One `DEL` command.
    fn delete(&self, key: &str) -> (call: BackendCall)
        ensures
            call is Redis,
    {
        BackendCall::Redis(self.client.delete(key), ReplyForm::Count)
    }
}

/// The backend that keeps documents in one table of a relational server.
pub struct PostgresStorage {
    config: String,
}

impl PostgresStorage {
    /// The connection string the backend was made with.
    pub closed spec fn connection(&self) -> Seq<char> {
        self.config@
    }

    /// The backend for the server that `config` describes. Nothing is
    /// connected yet.
    pub fn new(config: &str) -> (storage: PostgresStorage)
        ensures
            storage.connection() == config@,
    {
        PostgresStorage { config: config.to_owned() }
    }

    /// The connection string, to connect with.
    pub fn connection_string(&self) -> (r: &str)
        ensures
            r@ == self.connection(),
    {
        self.config.as_str()
    }

    /// The statement to run once connected: it makes the table if the server
    /// does not have it yet.
    pub fn schema_statement(&self) -> (r: &'static str)
        ensures
            r@ == SCHEMA_SQL@,
    {
        SCHEMA_SQL
    }
}

fn sql_with(statement: &str, first: &str, second: Option<String>) -> (call: SqlCall)
    ensures
        call@.statement == statement@,
        call@.params == match second {
            Some(s) => seq![first@, s@],
            None => seq![first@],
        },
{
    let mut params: Vec<String> = Vec::new();
    params.push(first.to_owned());
    match second {
        Some(s) => {
            params.push(s);
        },
        None => {},
    }
    let call = SqlCall { statement: statement.to_owned(), params };
    assert(call@.params =~= match second {
        Some(s) => seq![first@, s@],
        None => seq![first@],
    });
    call
}

impl DataStorage for PostgresStorage {
    /// One statement, [`UPSERT_SQL`], with the key and the document's text
    /// for its parameters: the server inserts the row or, where the key is
    /// there already, replaces its value, in that one statement.
    fn store_json(&self, key: &str, value: ::serde_json::Value) -> (call: BackendCall)
        ensures
            call is Sql,
    {
        let json_str = json_to_string(&value);
        BackendCall::Sql(sql_with(UPSERT_SQL, key, Some(json_str)), ReplyForm::Nothing)
    }

    /// One statement, [`SELECT_SQL`], with the key for its parameter.
    fn retrieve_json(&self, key: &str) -> (call: BackendCall)
        ensures
            call is Sql,
    {
        BackendCall::Sql(sql_with(SELECT_SQL, key, None), ReplyForm::Text)
    }

    /// One statement, [`DELETE_SQL`], with the key for its parameter.
    fn delete(&self, key: &str) -> (call: BackendCall)
        ensures
            call is Sql,
    {
        BackendCall::Sql(sql_with(DELETE_SQL, key, None), ReplyForm::Count)
    }
}

/// Which backend a store uses.
#[derive(Debug, Clone, Copy, PartialEq, Eq, Structural)]
pub enum BackendKind {
    Relational,
    KeyValue,
}

/// The backend that a storage address selects: the relational one for an
/// address that begins with `postgres`, the key-value one for any other.
pub open spec fn backend_for(url: Seq<char>) -> BackendKind {
    if begins_with(url, "postgres"@) {
        BackendKind::Relational
    } else {
        BackendKind::KeyValue
    }
}

/// A backend, chosen once.
pub enum Backend {
    Postgres(PostgresStorage),
    Redis(RedisStorage),
}

/// The typed object store over the backend that the configuration selects.
pub struct StorageManager {
    storage: Backend,
}

/// True when a call has the form that a backend of the given kind takes: a
/// statement for the relational backend, a command for the key-value one.
pub open spec fn fits(call: BackendCall, kind: BackendKind) -> bool {
    match kind {
        BackendKind::Relational => call is Sql,
        BackendKind::KeyValue => call is Redis,
    }
}

impl StorageManager {
    /// The backend that the store holds.
    pub closed spec fn held(&self) -> Backend {
        self.storage
    }

    /// The kind of the backend in use.
    pub open spec fn kind(&self) -> BackendKind {
        match self.held() {
            Backend::Postgres(_) => BackendKind::Relational,
            Backend::Redis(_) => BackendKind::KeyValue,
        }
    }

    /// The store for the configured storage address. The address selects the
    /// backend, for good. The key-value backend refuses an address that its
    /// client does not accept; the relational backend takes any and leaves
    /// the judgement to the server.
    pub fn new(config: &Config) -> (r: Result<StorageManager, StorageError>)
        ensures
            match r {
                Ok(manager) => manager.kind() == backend_for(config@.storage_url) && (
                match manager.held() {
                    Backend::Postgres(storage) => storage.connection() == config@.storage_url,
                    Backend::Redis(storage) => opened_client(config@.storage_url) == Some(
                        storage.redis_client().connection(),
                    ),
                }),
                Err(e) => backend_for(config@.storage_url) == BackendKind::KeyValue
                    && !redis_url_accepted(config@.storage_url) && e@
                    == StorageErrorView::Address,
            },
    {
        if starts_with(config.storage_url.as_str(), "postgres") {
            Ok(
                StorageManager {
                    storage: Backend::Postgres(PostgresStorage::new(config.storage_url.as_str())),
                },
            )
        } else {
            match RedisStorage::new(config.storage_url.as_str()) {
                Ok(storage) => Ok(StorageManager { storage: Backend::Redis(storage) }),
                Err(e) => Err(StorageError::Address(e)),
            }
        }
    }

    /// The backend, to connect with.
    pub fn backend(&self) -> (r: &Backend)
        ensures
            *r == self.held(),
    {
        &self.storage
    }

    /// The call that stores a value under `key`. `encoded` is what writing
    /// the value as a JSON document gave; a value that could not be written
    /// is not stored.
    pub fn store(&self, key: &str, encoded: Result<::serde_json::Value, ::serde_json::Error>) -> (r:
        Result<BackendCall, StorageError>)
        ensures
            match encoded {
                Ok(value) => r matches Ok(call) && call.asks(
                    StorageRequest::Put { key: key@, text: json_text(value) },
                ) && fits(call, self.kind()),
                Err(_) => r matches Err(e) && e@ == StorageErrorView::Encoding,
            },
    {
        match encoded {
            Ok(value) => Ok(
                match &self.storage {
                    Backend::Postgres(storage) => storage.store_json(key, value),
                    Backend::Redis(storage) => storage.store_json(key, value),
                },
            ),
            Err(e) => Err(StorageError::Encoding(e)),
        }
    }

    /// The call that asks for the document under `key`.
    pub fn retrieve(&self, key: &str) -> (call: BackendCall)
        ensures
            call.asks(StorageRequest::Get { key: key@ }),
            fits(call, self.kind()),
    {
        match &self.storage {
            Backend::Postgres(storage) => storage.retrieve_json(key),
            Backend::Redis(storage) => storage.retrieve_json(key),
        }
    }

    /// The call that removes `key`.
    pub fn delete(&self, key: &str) -> (call: BackendCall)
        ensures
            call.asks(StorageRequest::Delete { key: key@ }),
            fits(call, self.kind()),
    {
        match &self.storage {
            Backend::Postgres(storage) => storage.delete(key),
            Backend::Redis(storage) => storage.delete(key),
        }
    }

    /// The result of a retrieve, given what reading the document found in the
    /// requested shape gave: a document that does not have the shape is a
    /// decoding error.
    pub fn decoded<T>(shaped: Result<T, ::serde_json::Error>) -> (r: Result<T, StorageError>)
        ensures
            match shaped {
                Ok(value) => r matches Ok(v) && v == value,
                Err(_) => r matches Err(e) && e@ == StorageErrorView::Decoding,
            },
    {
        match shaped {
            Ok(value) => Ok(value),
            Err(e) => Err(StorageError::Decoding(e)),
        }
    }
}

} // verus!

use kanshi::checkpoint::{
    decode_block_state, encode_block_state, load_block_state, resume_point, save_block_state,
    BlockState, CheckpointError, CheckpointStore,
};

fn decode(text: &str) -> Option<u64> {
    decode_block_state(text.as_bytes()).map(|s| s.last_processed_block)
}

#[test]
fn record_is_compact_json() {
    assert_eq!(save_block_state(100), b"{\"last_processed_block\":100}".to_vec());
    assert_eq!(save_block_state(0), b"{\"last_processed_block\":0}".to_vec());
    assert_eq!(
        encode_block_state(BlockState { last_processed_block: u64::MAX }),
        b"{\"last_processed_block\":18446744073709551615}".to_vec()
    );
}

#[test]
fn record_is_what_serde_json_writes_for_the_same_object() {
    for n in [0u64, 7, 10, 99, 100, 12345678901234567890, u64::MAX] {
        let mut object = serde_json::Map::new();
        object.insert("last_processed_block".to_string(), serde_json::Value::from(n));
        let expected = serde_json::Value::Object(object).to_string();
        assert_eq!(save_block_state(n), expected.into_bytes());
    }
}

#[test]
fn record_round_trips() {
    for n in [0u64, 1, 9, 10, 11, 100, 1 << 32, u64::MAX - 1, u64::MAX] {
        assert_eq!(load_block_state(Some(&save_block_state(n))), Ok(Some(n)));
    }
}

#[test]
fn nothing_stored_is_no_checkpoint() {
    assert_eq!(load_block_state(None), Ok(None));
}

#[test]
fn decode_allows_space_between_tokens() {
    assert_eq!(decode(" {\n\t\"last_processed_block\" :\r\n 42 }\n"), Some(42));
    assert_eq!(decode("{ \"last_processed_block\":7}"), Some(7));
}

#[test]
fn decode_refuses_what_is_no_record() {
    for text in [
        "",
        " ",
        "{}",
        "100",
        "{\"last_processed_block\":}",
        "{\"last_processed_block\":-1}",
        "{\"last_processed_block\":1.0}",
        "{\"last_processed_block\":1e3}",
        "{\"last_processed_block\":\"1\"}",
        "{\"last_processed_block\":01}",
        "{\"last_processed_block\":00}",
        "{\"last_processed_block\":1 2}",
        "{\"last_processed_block\":1}}",
        "{\"last_processed_block\":1}x",
        "{\"last_processed_block\" 1}",
        "{\"last_processed_blocks\":1}",
        "{\"Last_processed_block\":1}",
        "{\"last_processed_block\":1,\"more\":2}",
        "{\"last_processed_block\":1",
        "[1]",
        "{\"last_processed_block\":18446744073709551616}",
        "{\"last_processed_block\":99999999999999999999999}",
        "{\"last_processed_block\":1\u{a0}}",
    ] {
        assert_eq!(decode(text), None, "{text:?}");
        assert_eq!(
            load_block_state(Some(text.as_bytes())),
            Err(CheckpointError::Malformed),
            "{text:?}"
        );
    }
}

#[test]
fn decode_refuses_bytes_that_are_not_text() {
    assert!(decode_block_state(&[0xff, 0xfe]).is_none());
    assert!(decode_block_state(b"{\"last_processed_block\":1\xff}").is_none());
}

#[test]
fn decode_takes_the_largest_block_number() {
    assert_eq!(decode("{\"last_processed_block\":18446744073709551615}"), Some(u64::MAX));
}

#[test]
fn store_starts_with_what_was_found() {
    let empty = CheckpointStore::new("indexer_state.json".to_string(), None);
    assert_eq!(empty.path(), "indexer_state.json");
    assert_eq!(empty.load(), Ok(None));
    assert_eq!(empty.stored(), &None);
    let found = CheckpointStore::new("p".to_string(), Some(b"{\"last_processed_block\":5}".to_vec()));
    assert_eq!(found.load(), Ok(Some(5)));
    let broken = CheckpointStore::new("p".to_string(), Some(b"oops".to_vec()));
    assert_eq!(broken.load(), Err(CheckpointError::Malformed));
}

#[test]
fn save_overwrites() {
    let mut store = CheckpointStore::new("p".to_string(), Some(b"anything at all".to_vec()));
    store.save(10);
    assert_eq!(store.load(), Ok(Some(10)));
    store.save(11);
    assert_eq!(store.load(), Ok(Some(11)));
    assert_eq!(store.stored(), &Some(b"{\"last_processed_block\":11}".to_vec()));
    assert_eq!(store.path(), "p");
}

#[test]
fn saving_twice_changes_nothing() {
    let mut store = CheckpointStore::new("p".to_string(), None);
    store.save(77);
    let once = store.stored().clone();
    store.save(77);
    assert_eq!(store.stored(), &once);
    assert_eq!(store.load(), Ok(Some(77)));
}

#[test]
fn resume_point_passes_over_an_unreadable_checkpoint() {
    assert_eq!(resume_point(Ok(Some(100))), Some(100));
    assert_eq!(resume_point(Ok(Some(0))), Some(0));
    assert_eq!(resume_point(Ok(None)), None);
    assert_eq!(resume_point(Err(CheckpointError::Malformed)), None);
}

#[test]
fn unreadable_checkpoint_is_left_as_it_is() {
    let store = CheckpointStore::new("p".to_string(), Some(b"{broken".to_vec()));
    assert_eq!(resume_point(store.load()), None);
    assert_eq!(store.stored(), &Some(b"{broken".to_vec()));
}

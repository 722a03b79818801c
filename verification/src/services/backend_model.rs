//! What a backend owes the store, and what follows for the store's
//! operations.

use vstd::prelude::*;
use crate::services::data_store::{
    delete_outcome,
    json_parse,
    retrieve_outcome,
    store_outcome,
    StorageErrorView,
    StorageReply,
    StorageRequest,
};

verus! {

/// What a backend keeps: for each key that is there, the text stored under
/// it.
pub type Kept = Map<Seq<char>, Seq<char>>;

/// True when two texts are the same document: the same text, or two texts
/// that are read as the same document.
pub open spec fn same_document(a: Seq<char>, b: Seq<char>) -> bool {
    a == b || (json_parse(a) is Some && json_parse(a) == json_parse(b))
}

/// True when `reply` and `after` are an answer of a backend that keeps `kept`
/// and is asked `request`, its server being reached.
///
/// A put stores the text under the key, replacing what was there. A get
/// changes nothing; it finds nothing when the key is not there, and else a
/// text that is the same document as the one stored (the relational backend
/// hands back the document in its own writing). A delete removes the key and
/// reports a positive count exactly when the key was there.
pub open spec fn serves(
    kept: Kept,
    request: StorageRequest,
    after: Kept,
    reply: StorageReply,
) -> bool {
    match request {
        StorageRequest::Put { key, text } => after == kept.insert(key, text) && reply
            == StorageReply::Done,
        StorageRequest::Get { key } => after == kept && match reply {
            StorageReply::Text(None) => !kept.dom().contains(key),
            StorageReply::Text(Some(found)) => kept.dom().contains(key) && same_document(
                found@,
                kept[key],
            ),
            _ => false,
        },
        StorageRequest::Delete { key } => after == kept.remove(key) && match reply {
            StorageReply::Count(n) => n > 0 <==> kept.dom().contains(key),
            _ => false,
        },
    }
}

/// What reading a stored text gives: the written form of its document, or a
/// decoding error when the text is not JSON.
pub open spec fn read_back(text: Seq<char>) -> Result<Option<Seq<char>>, StorageErrorView> {
    match json_parse(text) {
        Some(document) => Ok(Some(document)),
        None => Err(StorageErrorView::Decoding),
    }
}

/// A retrieve after a store with the same key gives the document that was
/// stored: the store succeeds, and the retrieve gives what reading the stored
/// text gives, whichever backend serves the two requests.
pub proof fn lemma_retrieve_after_store(
    kept: Kept,
    key: Seq<char>,
    text: Seq<char>,
    between: Kept,
    put_reply: StorageReply,
    after: Kept,
    get_reply: StorageReply,
)
    requires
        serves(kept, StorageRequest::Put { key, text }, between, put_reply),
        serves(between, StorageRequest::Get { key }, after, get_reply),
    ensures
        store_outcome(put_reply) is Ok,
        retrieve_outcome(get_reply) == read_back(text),
{
    assert(between.dom().contains(key));
    assert(between[key] == text);
}

/// A delete says `true` exactly when the key was there, and a retrieve of the
/// key after it finds nothing.
pub proof fn lemma_delete_then_retrieve(
    kept: Kept,
    key: Seq<char>,
    between: Kept,
    delete_reply: StorageReply,
    after: Kept,
    get_reply: StorageReply,
)
    requires
        serves(kept, StorageRequest::Delete { key }, between, delete_reply),
        serves(between, StorageRequest::Get { key }, after, get_reply),
    ensures
        delete_outcome(delete_reply) == Ok::<bool, StorageErrorView>(kept.dom().contains(key)),
        retrieve_outcome(get_reply) == Ok::<Option<Seq<char>>, StorageErrorView>(None),
{
    assert(!between.dom().contains(key));
}

/// Deleting twice: the second delete of a key says `false`.
pub proof fn lemma_delete_is_idempotent(
    kept: Kept,
    key: Seq<char>,
    between: Kept,
    first_reply: StorageReply,
    after: Kept,
    second_reply: StorageReply,
)
    requires
        serves(kept, StorageRequest::Delete { key }, between, first_reply),
        serves(between, StorageRequest::Delete { key }, after, second_reply),
    ensures
        delete_outcome(second_reply) == Ok::<bool, StorageErrorView>(false),
        after == between,
{
    assert(!between.dom().contains(key));
    assert(between.remove(key) =~= between);
}

} // verus!

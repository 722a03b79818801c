//! What a stream session is asked for and what it delivers.

use vstd::prelude::*;
use crate::utils::conversions::{field_hex, field_to_hex_string, Felt, FieldElement};

verus! {

/// How settled the provider considers the data it delivers.
#[derive(Debug, Clone, Copy, PartialEq, Eq, Structural)]
pub enum DataFinality {
    /// Final.
    Accepted,
    /// Not yet final.
    Pending,
}

/// How much of each block header the provider is asked to send.
#[derive(Debug, Clone, Copy, PartialEq, Eq, Structural)]
pub enum HeaderMode {
    /// Headers only for blocks that carry matching data.
    Weak,
    /// Every header.
    Full,
}

/// Selects the events that one contract emitted.
#[derive(Debug, Clone, Copy, PartialEq, Eq)]
pub struct EventFilter {
    pub from_address: Felt,
}

/// What a stream session subscribes to. A session keeps the configuration it
/// was opened with; a different starting block means a new configuration.
#[derive(Debug, Clone, PartialEq, Eq)]
pub struct SubscriptionConfig {
    pub starting_block: u64,
    pub finality: DataFinality,
    pub header_mode: HeaderMode,
    pub event_filters: Vec<EventFilter>,
}

/// A position in the stream.
#[derive(Debug, Clone, Copy, PartialEq, Eq, Structural)]
pub struct Cursor {
    pub order_key: u64,
}

/// The part of a block header that the indexer reads.
#[derive(Debug, Clone, Copy, PartialEq, Eq, Structural)]
pub struct BlockHeader {
    pub block_number: u64,
    /// Seconds since the epoch.
    pub timestamp: u64,
}

/// An event as the provider sends it.
#[derive(Debug, Clone, PartialEq, Eq)]
pub struct Event {
    pub from_address: Option<FieldElement>,
    pub data: Vec<FieldElement>,
}

/// One slot of a block's event list: the event, when the provider sent one,
/// and the hash of the transaction that emitted it.
#[derive(Debug, Clone, PartialEq, Eq)]
pub struct EventWithTransaction {
    pub transaction_hash: Option<FieldElement>,
    pub event: Option<Event>,
}

/// One block of a data batch.
#[derive(Debug, Clone, PartialEq, Eq)]
pub struct Block {
    pub header: Option<BlockHeader>,
    pub events: Vec<EventWithTransaction>,
}

/// One message pulled from a stream session.
#[derive(Debug, Clone, PartialEq, Eq)]
pub enum DataMessage {
    /// Blocks, in the order the provider sent them.
    Data { finality: DataFinality, batch: Vec<Block> },
    /// Data delivered at or after the cursor may no longer be canonical.
    Invalidate { cursor: Option<Cursor> },
    /// The session is alive; nothing else.
    Heartbeat,
}

/// An event in the form handed to the consumer.
#[derive(Debug, Clone, PartialEq, Eq)]
pub struct EventData {
    pub block_number: u64,
    pub from_address: String,
    pub timestamp: u64,
    pub transaction_hash: String,
    pub data: Vec<String>,
}

/// The mathematical content of an [`EventData`].
pub struct EventDataView {
    pub block_number: u64,
    pub from_address: Seq<char>,
    pub timestamp: u64,
    pub transaction_hash: Seq<char>,
    pub data: Seq<Seq<char>>,
}

impl View for EventData {
    type V = EventDataView;

    open spec fn view(&self) -> EventDataView {
        EventDataView {
            block_number: self.block_number,
            from_address: self.from_address@,
            timestamp: self.timestamp,
            transaction_hash: self.transaction_hash@,
            data: Seq::new(self.data@.len(), |i: int| self.data@[i]@),
        }
    }
}

/// The field element that an absent one is read as.
pub open spec fn zero_field() -> FieldElement {
    FieldElement { lo_lo: 0, lo_hi: 0, hi_lo: 0, hi_hi: 0 }
}

/// The text of a field element that may be absent.
pub open spec fn optional_field_hex(f: Option<FieldElement>) -> Seq<char> {
    match f {
        Some(x) => field_hex(x),
        None => field_hex(zero_field()),
    }
}

/// The block number that a block's events carry: its header's, or zero for a
/// block without a header.
pub open spec fn block_number_of(block: Block) -> u64 {
    match block.header {
        Some(h) => h.block_number,
        None => 0,
    }
}

/// The timestamp of a block: its header's, or zero for a block without one.
pub open spec fn block_timestamp_of(block: Block) -> u64 {
    match block.header {
        Some(h) => h.timestamp,
        None => 0,
    }
}

/// The consumer's form of an event of `block` that arrived with the
/// transaction hash `hash`.
pub open spec fn decoded_event(
    block: Block,
    hash: Option<FieldElement>,
    event: Event,
) -> EventDataView {
    EventDataView {
        block_number: block_number_of(block),
        from_address: optional_field_hex(event.from_address),
        timestamp: block_timestamp_of(block),
        transaction_hash: optional_field_hex(hash),
        data: Seq::new(event.data@.len(), |i: int| field_hex(event.data@[i])),
    }
}

/// What one slot of a block's event list gives the consumer: nothing when the
/// slot holds no event.
pub open spec fn decoded_slot(block: Block, slot: EventWithTransaction) -> Option<EventDataView> {
    match slot.event {
        Some(event) => Some(decoded_event(block, slot.transaction_hash, event)),
        None => None,
    }
}

/// The events that a block gives the consumer, in the order of its event
/// list, empty slots left out.
pub open spec fn block_events(block: Block) -> Seq<EventDataView> {
    block.events@.filter_map(|slot: EventWithTransaction| decoded_slot(block, slot))
}

/// The events that a run of blocks gives the consumer: those of the first
/// block, then those of the second, and so on.
pub open spec fn events_of(blocks: Seq<Block>) -> Seq<EventDataView> {
    blocks.map_values(|b: Block| block_events(b)).flatten()
}

impl Block {
    /// The block number that this block's events carry.
    pub fn block_number(&self) -> (n: u64)
        ensures
            n == block_number_of(*self),
    {
        match &self.header {
            Some(h) => h.block_number,
            None => 0,
        }
    }

    /// The block's timestamp in seconds, zero when it has no header.
    pub fn timestamp(&self) -> (t: u64)
        ensures
            t == block_timestamp_of(*self),
    {
        match &self.header {
            Some(h) => h.timestamp,
            None => 0,
        }
    }

    /// Builds the consumer's form of the event in slot `index`, if there is
    /// such a slot and it holds an event.
    pub fn decode_event(&self, index: usize) -> (r: Option<EventData>)
        ensures
            match r {
                Some(e) => index < self.events@.len() && decoded_slot(
                    *self,
                    self.events@[index as int],
                ) == Some(e@),
                None => index >= self.events@.len() || decoded_slot(
                    *self,
                    self.events@[index as int],
                ) is None,
            },
    {
        if index >= self.events.len() {
            return None;
        }
        let slot = &self.events[index];
        match &slot.event {
            None => None,
            Some(event) => {
                let from_address = optional_field_text(&event.from_address);
                let transaction_hash = optional_field_text(&slot.transaction_hash);
                let mut data: Vec<String> = Vec::new();
                let mut i: usize = 0;
                while i < event.data.len()
                    invariant
                        i <= event.data@.len(),
                        data@.len() == i,
                        forall|j: int|
                            0 <= j < i ==> (#[trigger] data@[j])@ == field_hex(event.data@[j]),
                    decreases event.data@.len() - i,
                {
                    data.push(field_to_hex_string(&event.data[i]));
                    i = i + 1;
                }
                let decoded = EventData {
                    block_number: self.block_number(),
                    from_address,
                    timestamp: self.timestamp(),
                    transaction_hash,
                    data,
                };
                assert(decoded@.data =~= decoded_event(*self, slot.transaction_hash, *event).data);
                Some(decoded)
            },
        }
    }
}

fn optional_field_text(f: &Option<FieldElement>) -> (r: String)
    ensures
        r@ == optional_field_hex(*f),
{
    match f {
        Some(x) => field_to_hex_string(x),
        None => field_to_hex_string(&FieldElement { lo_lo: 0, lo_hi: 0, hi_lo: 0, hi_hi: 0 }),
    }
}

} // verus!

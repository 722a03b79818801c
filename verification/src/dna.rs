//! The indexing loop: which stream to open, and what to do with each thing
//! that happens while it is open.
//!
//! The loop itself is run by the caller. It opens the session, pulls
//! messages and writes checkpoints, and reports each outcome to
//! [`IndexerService::run_forever_simplified`], which answers with the next
//! thing to do. Events for the consumer are pushed to the hand-off queue from
//! here.

use vstd::prelude::*;
use crate::config::{Config, ConfigView, NetworkName};
use crate::queue::HandoffQueue;
use crate::stream::{
    block_events,
    decoded_slot,
    Block,
    Cursor,
    DataFinality,
    DataMessage,
    EventDataView,
    EventFilter,
    EventWithTransaction,
    HeaderMode,
    SubscriptionConfig,
};

verus! {

/// Where the loop stands.
#[derive(Debug, Clone, Copy, PartialEq, Eq, Structural)]
pub enum Phase {
    /// The subscription is built; the session is not open yet.
    Initializing,
    /// The session is open and the next message is awaited.
    Streaming,
    /// A batch is being worked off: the events of one of its blocks are
    /// queued and that block's checkpoint is being written.
    Draining,
    /// The loop ended normally: the stream ended or the consumer is gone.
    Stopped,
    /// The loop ended with an error.
    Failed,
}

/// Why the loop failed.
#[derive(Debug, Clone, PartialEq, Eq)]
pub enum IndexerError {
    /// The provider could not be reached or refused the credential.
    Connection(String),
    /// The provider refused the subscription.
    StreamSetup(String),
    /// The provider reported a chain reorganization from the cursor on.
    Invalidated { cursor: Option<Cursor> },
    /// Reading from the open stream failed.
    Transport(String),
    /// Something was reported that cannot happen in the loop's phase.
    Protocol,
}

/// The mathematical content of an [`IndexerError`].
pub enum IndexerErrorView {
    Connection(Seq<char>),
    StreamSetup(Seq<char>),
    Invalidated { cursor: Option<Cursor> },
    Transport(Seq<char>),
    Protocol,
}

impl View for IndexerError {
    type V = IndexerErrorView;

    open spec fn view(&self) -> IndexerErrorView {
        match *self {
            IndexerError::Connection(m) => IndexerErrorView::Connection(m@),
            IndexerError::StreamSetup(m) => IndexerErrorView::StreamSetup(m@),
            IndexerError::Invalidated { cursor } => IndexerErrorView::Invalidated { cursor },
            IndexerError::Transport(m) => IndexerErrorView::Transport(m@),
            IndexerError::Protocol => IndexerErrorView::Protocol,
        }
    }
}

/// What the caller reports to the loop.
#[derive(Debug, Clone, PartialEq, Eq)]
pub enum LoopEvent {
    /// The stream session is open.
    SessionOpened,
    /// The provider could not be reached or refused the credential.
    ConnectionFailed(String),
    /// The provider refused the subscription.
    SetupFailed(String),
    /// A message was pulled from the stream.
    Message(DataMessage),
    /// The stream closed gracefully.
    EndOfStream,
    /// Pulling from the stream failed.
    ReadFailed(String),
    /// The checkpoint asked for last was written, or could not be. The loop
    /// goes on either way: a checkpoint that was not written only means that
    /// more is delivered again after a restart.
    CheckpointWritten { saved: bool },
    /// The caller was asked to go on and does so.
    Continued,
}

/// What the loop asks the caller to do next.
#[derive(Debug, Clone, Copy, PartialEq, Eq, Structural)]
pub enum LoopAction {
    /// Pull the next message and report it.
    Pull,
    /// Write this block number as the checkpoint and report the outcome.
    SaveCheckpoint(u64),
    /// Go on and report `Continued`: the block just handled has no header,
    /// so it has no number and no checkpoint is written for it.
    Continue,
    /// Leave the loop; it ended normally.
    Stop,
    /// Leave the loop; it failed, and [`IndexerService::failure`] says why.
    Fail,
}

/// The state of the loop as the contracts see it.
pub struct LoopModel {
    pub phase: Phase,
    /// The blocks of the current batch that are still to be handled.
    pub pending: Seq<Block>,
    /// True once a batch of pending finality has been seen.
    pub reached_pending: bool,
    /// The cause of the failure, in phase `Failed`.
    pub failure: Option<IndexerErrorView>,
}

/// The block at which a session starts: the checkpoint when there is one,
/// else the configured starting block.
pub open spec fn effective_start(checkpoint: Option<u64>, configured: u64) -> u64 {
    match checkpoint {
        Some(block) => block,
        None => configured,
    }
}

/// The start is the larger of checkpoint and configured block whenever the
/// checkpoint is not behind the configured block.
pub proof fn lemma_start_is_the_larger(checkpoint: u64, configured: u64)
    requires
        checkpoint >= configured,
    ensures
        effective_start(Some(checkpoint), configured) == checkpoint,
        effective_start(Some(checkpoint), configured) >= configured,
{
}

/// The state after a failure with the given cause.
pub open spec fn failed_with(pre: LoopModel, cause: IndexerErrorView) -> LoopModel {
    LoopModel {
        phase: Phase::Failed,
        pending: Seq::empty(),
        reached_pending: pre.reached_pending,
        failure: Some(cause),
    }
}

/// The value of the pending-finality latch after an event.
pub open spec fn latched(pre: LoopModel, event: LoopEvent) -> bool {
    pre.reached_pending || match event {
        LoopEvent::Message(DataMessage::Data { finality, .. }) => pre.phase == Phase::Streaming
            && finality == DataFinality::Pending,
        _ => false,
    }
}

/// The blocks that an event adds to what the loop has received: the batch of
/// a data message that arrives while the loop is streaming.
pub open spec fn taken_up(pre: LoopModel, event: LoopEvent) -> Seq<Block> {
    match event {
        LoopEvent::Message(DataMessage::Data { batch, .. }) if pre.phase == Phase::Streaming
            => batch@,
        _ => Seq::empty(),
    }
}

/// The blocks that the loop turns to on an event, if the event makes it
/// handle blocks at all: a fresh batch while streaming, or the rest of the
/// current batch once the caller reports back on the block before.
pub open spec fn blocks_at_hand(pre: LoopModel, event: LoopEvent) -> Option<Seq<Block>> {
    match event {
        LoopEvent::Message(DataMessage::Data { batch, .. }) if pre.phase == Phase::Streaming
            => Some(batch@),
        LoopEvent::CheckpointWritten { .. } if pre.phase == Phase::Draining => Some(
            pre.pending,
        ),
        LoopEvent::Continued if pre.phase == Phase::Draining => Some(pre.pending),
        _ => None,
    }
}

/// What the loop asks for once all events of a block are queued: the
/// checkpoint of the block's number, or, for a block without a header, only
/// to go on. A block without a header has no number, and writing a made-up
/// one could take the stored checkpoint back behind blocks already handled.
pub open spec fn after_block(block: Block) -> LoopAction {
    match block.header {
        Some(header) => LoopAction::SaveCheckpoint(header.block_number),
        None => LoopAction::Continue,
    }
}

/// The next state and action for an event that makes the loop handle no
/// block.
pub open spec fn quiet_step(pre: LoopModel, event: LoopEvent) -> (LoopModel, LoopAction) {
    match pre.phase {
        Phase::Stopped => (pre, LoopAction::Stop),
        Phase::Failed => (pre, LoopAction::Fail),
        Phase::Initializing => match event {
            LoopEvent::SessionOpened => (
                LoopModel { phase: Phase::Streaming, ..pre },
                LoopAction::Pull,
            ),
            LoopEvent::ConnectionFailed(m) => (
                failed_with(pre, IndexerErrorView::Connection(m@)),
                LoopAction::Fail,
            ),
            LoopEvent::SetupFailed(m) => (
                failed_with(pre, IndexerErrorView::StreamSetup(m@)),
                LoopAction::Fail,
            ),
            _ => (failed_with(pre, IndexerErrorView::Protocol), LoopAction::Fail),
        },
        Phase::Streaming => match event {
            LoopEvent::Message(DataMessage::Heartbeat) => (pre, LoopAction::Pull),
            LoopEvent::Message(DataMessage::Invalidate { cursor }) => (
                failed_with(pre, IndexerErrorView::Invalidated { cursor }),
                LoopAction::Fail,
            ),
            LoopEvent::EndOfStream => (
                LoopModel { phase: Phase::Stopped, ..pre },
                LoopAction::Stop,
            ),
            LoopEvent::ReadFailed(m) => (
                failed_with(pre, IndexerErrorView::Transport(m@)),
                LoopAction::Fail,
            ),
            _ => (failed_with(pre, IndexerErrorView::Protocol), LoopAction::Fail),
        },
        Phase::Draining => (failed_with(pre, IndexerErrorView::Protocol), LoopAction::Fail),
    }
}

/// One step of the loop. `delivered` is what the hand-off queue had accepted
/// before the step and `delivered_after` what it has accepted after it.
///
/// A step that handles blocks takes the first block at hand and offers its
/// events to the queue in order. If the queue accepts them all, the loop asks
/// for that block's checkpoint, where the block has a number, and keeps the
/// other blocks for later. If the
/// queue refuses one, the consumer is gone and the loop stops: no checkpoint
/// is asked for, and nothing after the refused event is offered. With no
/// block at hand the loop goes back to pulling.
pub open spec fn step(
    pre: LoopModel,
    delivered: Seq<EventDataView>,
    event: LoopEvent,
    post: LoopModel,
    delivered_after: Seq<EventDataView>,
    action: LoopAction,
) -> bool {
    match blocks_at_hand(pre, event) {
        None => delivered_after == delivered && post == quiet_step(pre, event).0 && action
            == quiet_step(pre, event).1,
        Some(blocks) => {
            &&& post.reached_pending == latched(pre, event)
            &&& post.failure is None
            &&& if blocks.len() == 0 {
                &&& delivered_after == delivered
                &&& post.phase == Phase::Streaming
                &&& post.pending == Seq::<Block>::empty()
                &&& action == LoopAction::Pull
            } else {
                let events = block_events(blocks[0]);
                let accepted = delivered_after.len() - delivered.len();
                &&& 0 <= accepted <= events.len()
                &&& delivered_after == delivered + events.take(accepted)
                &&& if accepted == events.len() {
                    &&& post.phase == Phase::Draining
                    &&& post.pending == blocks.skip(1)
                    &&& action == after_block(blocks[0])
                } else {
                    &&& post.phase == Phase::Stopped
                    &&& post.pending == Seq::<Block>::empty()
                    &&& action == LoopAction::Stop
                }
            }
        },
    }
}

/// The events of the first `i` slots of a list are a prefix of the events of
/// the whole list.
pub proof fn lemma_slots_prefix(block: Block, i: int)
    requires
        0 <= i <= block.events@.len(),
    ensures
        ({
            let f = |slot: EventWithTransaction| decoded_slot(block, slot);
            let part = block.events@.take(i).filter_map(f);
            &&& part.len() <= block_events(block).len()
            &&& part == block_events(block).take(part.len() as int)
        }),
    decreases block.events@.len() - i,
{
    let f = |slot: EventWithTransaction| decoded_slot(block, slot);
    let slots = block.events@;
    if i == slots.len() {
        assert(slots.take(i) == slots);
        assert(block_events(block).take(block_events(block).len() as int) == block_events(block));
    } else {
        lemma_slots_prefix(block, i + 1);
        slots.lemma_filter_map_take_succ(f, i);
        let part = slots.take(i).filter_map(f);
        let more = slots.take(i + 1).filter_map(f);
        assert(part == more.take(part.len() as int));
        assert(part == block_events(block).take(part.len() as int));
    }
}

/// Offers the events of a block to the queue in order, until the queue
/// refuses one. The answer is `true` when all were accepted.
fn push_block(tx: &mut HandoffQueue, block: &Block) -> (all: bool)
    ensures
        old(tx)@.len() <= final(tx)@.len() <= old(tx)@.len() + block_events(*block).len(),
        final(tx)@ == old(tx)@ + block_events(*block).take(final(tx)@.len() - old(tx)@.len()),
        all <==> final(tx)@.len() - old(tx)@.len() == block_events(*block).len(),
{
    let ghost f = |slot: EventWithTransaction| decoded_slot(*block, slot);
    let ghost slots = block.events@;
    let mut i: usize = 0;
    assert(slots.take(0) == Seq::<EventWithTransaction>::empty());
    while i < block.events.len()
        invariant
            i <= block.events@.len(),
            slots == block.events@,
            f == (|slot: EventWithTransaction| decoded_slot(*block, slot)),
            tx@ == old(tx)@ + slots.take(i as int).filter_map(f),
        decreases block.events@.len() - i,
    {
        proof {
            slots.lemma_filter_map_take_succ(f, i as int);
            lemma_slots_prefix(*block, i as int);
            lemma_slots_prefix(*block, i as int + 1);
        }
        match block.decode_event(i) {
            Some(event) => {
                let accepted = tx.push(event);
                if !accepted {
                    return false;
                }
            },
            None => {},
        }
        i = i + 1;
    }
    assert(slots.take(i as int) == slots);
    proof {
        lemma_slots_prefix(*block, i as int);
    }
    true
}

/// The indexer of one deployment: its settings, the provider's address, the
/// subscription, and the state of its loop.
pub struct IndexerService {
    config: Config,
    uri: String,
    stream_config: SubscriptionConfig,
    phase: Phase,
    batch: Vec<Block>,
    next: usize,
    reached_pending: bool,
    failure: Option<IndexerError>,
}

impl IndexerService {
    /// The state of the loop.
    pub closed spec fn model(&self) -> LoopModel {
        LoopModel {
            phase: self.phase,
            pending: if self.phase == Phase::Draining && self.next <= self.batch@.len() {
                self.batch@.skip(self.next as int)
            } else {
                Seq::empty()
            },
            reached_pending: self.reached_pending,
            failure: match self.failure {
                Some(e) => Some(e@),
                None => None,
            },
        }
    }

    /// The settings the indexer was made with.
    pub closed spec fn settings(&self) -> ConfigView {
        self.config@
    }

    /// The subscription that the session is opened with.
    pub closed spec fn subscription(&self) -> SubscriptionConfig {
        self.stream_config
    }

    /// The provider's address.
    pub closed spec fn endpoint(&self) -> Seq<char> {
        self.uri@
    }

    /// Makes the indexer for the given settings. `checkpoint` is what loading
    /// the saved checkpoint gave: the session starts there when there is one,
    /// and at the configured starting block when there is none.
    pub fn new(config: Config, checkpoint: Option<u64>) -> (service: IndexerService)
        ensures
            service.settings() == config@,
            service.endpoint() == match config.network {
                NetworkName::Mainnet => "https://mainnet.starknet.a5a.ch"@,
                NetworkName::Sepolia => "https://sepolia.starknet.a5a.ch"@,
            },
            service.subscription().starting_block == effective_start(
                checkpoint,
                config.starting_block,
            ),
            service.subscription().finality == DataFinality::Pending,
            service.subscription().header_mode == HeaderMode::Weak,
            service.subscription().event_filters@ == seq![
                EventFilter { from_address: config.contract_address },
            ],
            service.model() == (LoopModel {
                phase: Phase::Initializing,
                pending: Seq::empty(),
                reached_pending: false,
                failure: None,
            }),
    {
        let uri = config.network.endpoint().to_owned();
        let starting_block = match checkpoint {
            Some(block) => block,
            None => config.starting_block,
        };
        let mut event_filters: Vec<EventFilter> = Vec::new();
        event_filters.push(EventFilter { from_address: config.contract_address });
        let stream_config = SubscriptionConfig {
            starting_block,
            finality: DataFinality::Pending,
            header_mode: HeaderMode::Weak,
            event_filters,
        };
        IndexerService {
            config,
            uri,
            stream_config,
            phase: Phase::Initializing,
            batch: Vec::new(),
            next: 0,
            reached_pending: false,
            failure: None,
        }
    }

    /// The settings.
    pub fn config(&self) -> (r: &Config)
        ensures
            r@ == self.settings(),
    {
        &self.config
    }

    /// The provider's address.
    pub fn uri(&self) -> (r: &str)
        ensures
            r@ == self.endpoint(),
    {
        self.uri.as_str()
    }

    /// The subscription to open the session with.
    pub fn stream_config(&self) -> (r: &SubscriptionConfig)
        ensures
            *r == self.subscription(),
    {
        &self.stream_config
    }

    /// Where the loop stands.
    pub fn phase(&self) -> (r: Phase)
        ensures
            r == self.model().phase,
    {
        self.phase
    }

    /// True once a batch of pending finality has been seen.
    pub fn reached_pending(&self) -> (r: bool)
        ensures
            r == self.model().reached_pending,
    {
        self.reached_pending
    }

    /// The location of the checkpoint record.
    pub fn get_state_file_path(&self) -> (r: &str)
        ensures
            r@ == self.settings().write_path,
    {
        self.config.write_path.as_str()
    }

    fn fail(&mut self, cause: IndexerError) -> (action: LoopAction)
        ensures
            action == LoopAction::Fail,
            final(self).model() == failed_with(old(self).model(), cause@),
            final(self).settings() == old(self).settings(),
            final(self).subscription() == old(self).subscription(),
            final(self).endpoint() == old(self).endpoint(),
    {
        self.phase = Phase::Failed;
        self.failure = Some(cause);
        LoopAction::Fail
    }

    /// Handles the first block that is still pending, if there is one.
    fn advance(&mut self, tx: &mut HandoffQueue) -> (action: LoopAction)
        requires
            old(self).next <= old(self).batch@.len(),
        ensures
            final(self).reached_pending == old(self).reached_pending,
            final(self).settings() == old(self).settings(),
            final(self).subscription() == old(self).subscription(),
            final(self).endpoint() == old(self).endpoint(),
            final(self).model().failure is None,
            ({
                let blocks = old(self).batch@.skip(old(self).next as int);
                let post = final(self).model();
                if blocks.len() == 0 {
                    &&& final(tx)@ == old(tx)@
                    &&& post.phase == Phase::Streaming
                    &&& post.pending == Seq::<Block>::empty()
                    &&& action == LoopAction::Pull
                } else {
                    let events = block_events(blocks[0]);
                    let accepted = final(tx)@.len() - old(tx)@.len();
                    &&& 0 <= accepted <= events.len()
                    &&& final(tx)@ == old(tx)@ + events.take(accepted)
                    &&& if accepted == events.len() {
                        &&& post.phase == Phase::Draining
                        &&& post.pending == blocks.skip(1)
                        &&& action == after_block(blocks[0])
                    } else {
                        &&& post.phase == Phase::Stopped
                        &&& post.pending == Seq::<Block>::empty()
                        &&& action == LoopAction::Stop
                    }
                }
            }),
    {
        self.failure = None;
        if self.next >= self.batch.len() {
            self.phase = Phase::Streaming;
            return LoopAction::Pull;
        }
        let ghost blocks = self.batch@.skip(self.next as int);
        assert(blocks[0] == self.batch@[self.next as int]);
        let all = push_block(tx, &self.batch[self.next]);
        if !all {
            self.phase = Phase::Stopped;
            return LoopAction::Stop;
        }
        let action = match &self.batch[self.next].header {
            Some(header) => LoopAction::SaveCheckpoint(header.block_number),
            None => LoopAction::Continue,
        };
        self.next = self.next + 1;
        self.phase = Phase::Draining;
        assert(self.batch@.skip(self.next as int) == blocks.skip(1));
        action
    }

    /// Takes the loop one step further: `event` is what happened since the
    /// last step, and the answer is what to do next.
    ///
    /// The caller opens the session with [`IndexerService::stream_config`]
    /// and reports `SessionOpened` or the failure. From then on it does what
    /// each answer asks and reports the outcome, until the answer is `Stop`
    /// or `Fail`. Events for the consumer are pushed to `tx` during the step.
    pub fn run_forever_simplified(&mut self, tx: &mut HandoffQueue, event: LoopEvent) -> (action:
        LoopAction)
        ensures
            step(old(self).model(), old(tx)@, event, final(self).model(), final(tx)@, action),
            final(self).settings() == old(self).settings(),
            final(self).subscription() == old(self).subscription(),
            final(self).endpoint() == old(self).endpoint(),
    {
        match self.phase {
            Phase::Stopped => LoopAction::Stop,
            Phase::Failed => LoopAction::Fail,
            Phase::Initializing => match event {
                LoopEvent::SessionOpened => {
                    self.phase = Phase::Streaming;
                    LoopAction::Pull
                },
                LoopEvent::ConnectionFailed(message) => self.fail(
                    IndexerError::Connection(message),
                ),
                LoopEvent::SetupFailed(message) => self.fail(IndexerError::StreamSetup(message)),
                _ => self.fail(IndexerError::Protocol),
            },
            Phase::Streaming => match event {
                LoopEvent::Message(DataMessage::Heartbeat) => LoopAction::Pull,
                LoopEvent::Message(DataMessage::Invalidate { cursor }) => self.fail(
                    IndexerError::Invalidated { cursor },
                ),
                LoopEvent::Message(DataMessage::Data { finality, batch }) => {
                    if finality == DataFinality::Pending {
                        self.reached_pending = true;
                    }
                    self.batch = batch;
                    self.next = 0;
                    assert(self.batch@.skip(0) == self.batch@);
                    self.advance(tx)
                },
                LoopEvent::EndOfStream => {
                    self.phase = Phase::Stopped;
                    LoopAction::Stop
                },
                LoopEvent::ReadFailed(message) => self.fail(IndexerError::Transport(message)),
                _ => self.fail(IndexerError::Protocol),
            },
            Phase::Draining => match event {
                LoopEvent::CheckpointWritten { saved: _ } | LoopEvent::Continued => {
                    if self.next > self.batch.len() {
                        self.next = self.batch.len();
                    }
                    self.advance(tx)
                },
                _ => self.fail(IndexerError::Protocol),
            },
        }
    }

    /// Why the loop failed, once it has.
    pub fn failure(&self) -> (r: &Option<IndexerError>)
        ensures
            self.model().failure == match *r {
                Some(e) => Some(e@),
                None => None,
            },
    {
        &self.failure
    }
}

} // verus!

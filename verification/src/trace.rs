//! Runs of the indexing loop, and what holds of every run.

use vstd::prelude::*;
use vstd::seq_lib::lemma_flatten_concat;
use crate::dna::{
    blocks_at_hand,
    step,
    taken_up,
    IndexerErrorView,
    LoopAction,
    LoopEvent,
    LoopModel,
    Phase,
};
use crate::stream::{
    block_events,
    events_of,
    Block,
    Cursor,
    DataMessage,
    EventDataView,
};

verus! {

/// A run of the loop: the state and the queue's record before the first step
/// and after each step, the event reported at each step and the answer given.
pub struct Run {
    pub states: Seq<LoopModel>,
    pub delivered: Seq<Seq<EventDataView>>,
    pub events: Seq<LoopEvent>,
    pub actions: Seq<LoopAction>,
}

impl Run {
    /// True when each step of the run is a step of the loop.
    pub open spec fn valid(self) -> bool {
        &&& self.states.len() == self.events.len() + 1
        &&& self.delivered.len() == self.events.len() + 1
        &&& self.actions.len() == self.events.len()
        &&& forall|i: int|
            0 <= i < self.events.len() ==> step(
                self.states[i],
                self.delivered[i],
                #[trigger] self.events[i],
                self.states[i + 1],
                self.delivered[i + 1],
                self.actions[i],
            )
    }

    /// True when the run starts with a loop that has not been stepped and a
    /// queue that has accepted nothing.
    pub open spec fn fresh(self) -> bool {
        &&& self.states.len() > 0
        &&& self.delivered.len() > 0
        &&& self.states[0].phase == Phase::Initializing
        &&& self.states[0].pending == Seq::<Block>::empty()
        &&& self.delivered[0] == Seq::<EventDataView>::empty()
    }

    /// The blocks that the loop has received in the first `n` steps, in the
    /// order of their arrival.
    pub open spec fn received(self, n: int) -> Seq<Block>
        decreases n,
    {
        if n <= 0 {
            Seq::empty()
        } else {
            self.received(n - 1) + taken_up(self.states[n - 1], self.events[n - 1])
        }
    }

    /// The block numbers for which a checkpoint was asked in the first `n`
    /// steps, in the order of the requests.
    pub open spec fn checkpoints(self, n: int) -> Seq<u64>
        decreases n,
    {
        if n <= 0 {
            Seq::empty()
        } else {
            match self.actions[n - 1] {
                LoopAction::SaveCheckpoint(block) => self.checkpoints(n - 1).push(block),
                _ => self.checkpoints(n - 1),
            }
        }
    }
}

/// The number under which a block is checkpointed, if it has one: a block
/// without a header has none.
pub open spec fn checkpoint_of(block: Block) -> Seq<u64> {
    match block.header {
        Some(header) => seq![header.block_number],
        None => Seq::empty(),
    }
}

/// The numbers under which a run of blocks is checkpointed, block by block.
pub open spec fn numbers_of(blocks: Seq<Block>) -> Seq<u64> {
    blocks.map_values(|b: Block| checkpoint_of(b)).flatten()
}

/// The checkpoints of two runs of blocks, one after the other.
pub proof fn lemma_numbers_of_concat(a: Seq<Block>, b: Seq<Block>)
    ensures
        numbers_of(a + b) == numbers_of(a) + numbers_of(b),
{
    let f = |blk: Block| checkpoint_of(blk);
    assert((a + b).map_values(f) == a.map_values(f) + b.map_values(f));
    lemma_flatten_concat(a.map_values(f), b.map_values(f));
}

/// The checkpoints of a run of blocks are that of its first block followed
/// by those of the others.
pub proof fn lemma_numbers_of_first(blocks: Seq<Block>)
    requires
        blocks.len() > 0,
    ensures
        numbers_of(blocks) == checkpoint_of(blocks[0]) + numbers_of(blocks.skip(1)),
{
    let f = |blk: Block| checkpoint_of(blk);
    assert(blocks.map_values(f).drop_first() == blocks.skip(1).map_values(f));
    assert(blocks.map_values(f).first() == checkpoint_of(blocks[0]));
}

/// No blocks give no checkpoints.
pub proof fn lemma_numbers_of_none()
    ensures
        numbers_of(Seq::<Block>::empty()) == Seq::<u64>::empty(),
{
    let f = |blk: Block| checkpoint_of(blk);
    assert(Seq::<Block>::empty().map_values(f) == Seq::<Seq<u64>>::empty());
}

/// The events of two runs of blocks, one after the other, are the events of
/// the first run followed by those of the second.
pub proof fn lemma_events_of_concat(a: Seq<Block>, b: Seq<Block>)
    ensures
        events_of(a + b) == events_of(a) + events_of(b),
{
    let f = |blk: Block| block_events(blk);
    assert((a + b).map_values(f) == a.map_values(f) + b.map_values(f));
    lemma_flatten_concat(a.map_values(f), b.map_values(f));
}

/// The events of a run of blocks are those of its first block followed by
/// those of the others.
pub proof fn lemma_events_of_first(blocks: Seq<Block>)
    requires
        blocks.len() > 0,
    ensures
        events_of(blocks) == block_events(blocks[0]) + events_of(blocks.skip(1)),
{
    let f = |blk: Block| block_events(blk);
    assert(blocks.map_values(f).drop_first() == blocks.skip(1).map_values(f));
    assert(blocks.map_values(f).first() == block_events(blocks[0]));
}

/// No blocks give no events.
pub proof fn lemma_events_of_none()
    ensures
        events_of(Seq::<Block>::empty()) == Seq::<EventDataView>::empty(),
{
    let f = |blk: Block| block_events(blk);
    assert(Seq::<Block>::empty().map_values(f) == Seq::<Seq<EventDataView>>::empty());
}

/// True when the loop has not ended.
pub open spec fn running(phase: Phase) -> bool {
    phase != Phase::Stopped && phase != Phase::Failed
}

/// Nothing is lost and nothing is delivered twice while the loop runs. In a
/// run that starts with a fresh loop and an empty queue, after any number of
/// steps what the queue has taken is a prefix of the events of the blocks
/// received; as long as the loop has not ended, what the queue has taken
/// followed by the events of the blocks still pending is exactly the events
/// of the blocks received; and blocks are pending only while a batch is
/// being worked off.
pub proof fn lemma_run_invariant(run: Run, n: int)
    requires
        run.valid(),
        run.fresh(),
        0 <= n <= run.events.len(),
    ensures
        run.delivered[n].is_prefix_of(events_of(run.received(n))),
        running(run.states[n].phase) ==> run.delivered[n] + events_of(run.states[n].pending)
            == events_of(run.received(n)),
        run.states[n].phase != Phase::Draining ==> run.states[n].pending == Seq::<
            Block,
        >::empty(),
    decreases n,
{
    lemma_events_of_none();
    if n == 0 {
        assert(run.delivered[0] + events_of(run.states[0].pending) == Seq::<
            EventDataView,
        >::empty());
    } else {
        lemma_run_invariant(run, n - 1);
        let pre = run.states[n - 1];
        let post = run.states[n];
        let event = run.events[n - 1];
        let before = run.delivered[n - 1];
        let after = run.delivered[n];
        let had = run.received(n - 1);
        let got = taken_up(pre, event);
        assert(step(pre, before, event, post, after, run.actions[n - 1]));
        lemma_events_of_concat(had, got);
        let total_before = events_of(had);
        let total = events_of(run.received(n));
        assert(total == total_before + events_of(got));
        match blocks_at_hand(pre, event) {
            None => {
                assert(got == Seq::<Block>::empty());
                assert(total == total_before);
                assert(after == before);
                if running(post.phase) {
                    assert(running(pre.phase));
                    assert(post.pending == pre.pending);
                }
            },
            Some(blocks) => {
                // what was still owed to the consumer before the step
                assert(running(pre.phase));
                assert(before + events_of(pre.pending) == total_before);
                assert(events_of(pre.pending) + events_of(got) == events_of(blocks)) by {
                    if pre.phase == Phase::Streaming {
                        assert(pre.pending == Seq::<Block>::empty());
                        assert(got == blocks);
                    } else {
                        assert(got == Seq::<Block>::empty());
                        assert(blocks == pre.pending);
                    }
                }
                assert(total == before + events_of(blocks)) by {
                    assert(total == (before + events_of(pre.pending)) + events_of(got));
                    assert((before + events_of(pre.pending)) + events_of(got) == before + (
                    events_of(pre.pending) + events_of(got)));
                }
                if blocks.len() == 0 {
                    assert(events_of(blocks) == Seq::<EventDataView>::empty());
                    assert(after + events_of(post.pending) == total);
                } else {
                    lemma_events_of_first(blocks);
                    let events = block_events(blocks[0]);
                    let accepted = after.len() - before.len();
                    assert(after == before + events.take(accepted));
                    let rest = events_of(blocks.skip(1));
                    assert(total == before + (events + rest));
                    assert(after.is_prefix_of(total)) by {
                        assert(total.subrange(0, after.len() as int) == after);
                    }
                    if accepted == events.len() {
                        assert(events.take(accepted) == events);
                        assert(after + events_of(post.pending) == total) by {
                            assert((before + events) + rest == before + (events + rest));
                        }
                    }
                }
            },
        }
    }
}

/// The consumer observes the events in the order in which they appeared
/// across blocks and within each block.
///
/// In a run that starts with a fresh loop and an empty queue, what the queue
/// has accepted after any number of steps is a prefix of the events of the
/// blocks received so far, taken block by block in arrival order and within a
/// block in the order of its event list. Whenever the loop is waiting for the
/// next message, the queue has accepted all of them.
pub proof fn lemma_delivery_is_fifo(run: Run, n: int)
    requires
        run.valid(),
        run.fresh(),
        0 <= n <= run.events.len(),
    ensures
        run.delivered[n].is_prefix_of(events_of(run.received(n))),
        run.states[n].phase == Phase::Streaming ==> run.delivered[n] == events_of(
            run.received(n),
        ),
{
    lemma_run_invariant(run, n);
    lemma_events_of_none();
    if run.states[n].phase == Phase::Streaming {
        assert(run.delivered[n] + Seq::<EventDataView>::empty() == run.delivered[n]);
    }
}

/// Every block with a header is checkpointed once, in order, while the loop
/// runs. In a run
/// that starts with a fresh loop, after any number of steps the checkpoints
/// asked for are a prefix of those of the blocks received; as long as the
/// loop has not ended, the checkpoints asked for followed by those of the
/// blocks still pending are exactly those of the blocks received.
pub proof fn lemma_checkpoint_invariant(run: Run, n: int)
    requires
        run.valid(),
        run.fresh(),
        0 <= n <= run.events.len(),
    ensures
        run.checkpoints(n).is_prefix_of(numbers_of(run.received(n))),
        running(run.states[n].phase) ==> run.checkpoints(n) + numbers_of(run.states[n].pending)
            == numbers_of(run.received(n)),
        run.states[n].phase != Phase::Draining ==> run.states[n].pending == Seq::<
            Block,
        >::empty(),
    decreases n,
{
    lemma_numbers_of_none();
    if n == 0 {
        assert(run.checkpoints(0) + numbers_of(run.states[0].pending) == Seq::<u64>::empty());
    } else {
        lemma_checkpoint_invariant(run, n - 1);
        let pre = run.states[n - 1];
        let post = run.states[n];
        let event = run.events[n - 1];
        let action = run.actions[n - 1];
        let asked = run.checkpoints(n - 1);
        let had = run.received(n - 1);
        let got = taken_up(pre, event);
        let before = run.delivered[n - 1];
        let after = run.delivered[n];
        assert(step(pre, before, event, post, after, action));
        lemma_numbers_of_concat(had, got);
        let total_before = numbers_of(had);
        let total = numbers_of(run.received(n));
        assert(total == total_before + numbers_of(got));
        match blocks_at_hand(pre, event) {
            None => {
                assert(got == Seq::<Block>::empty());
                assert(total == total_before);
                assert(run.checkpoints(n) == asked);
                if running(post.phase) {
                    assert(post.pending == pre.pending);
                }
            },
            Some(blocks) => {
                assert(asked + numbers_of(pre.pending) == total_before);
                assert(numbers_of(pre.pending) + numbers_of(got) == numbers_of(blocks)) by {
                    if pre.phase == Phase::Streaming {
                        assert(got == blocks);
                    } else {
                        assert(got == Seq::<Block>::empty());
                    }
                }
                assert(total == asked + numbers_of(blocks)) by {
                    assert((asked + numbers_of(pre.pending)) + numbers_of(got) == asked + (
                    numbers_of(pre.pending) + numbers_of(got)));
                }
                if blocks.len() == 0 {
                    assert(run.checkpoints(n) == asked);
                    assert(asked + numbers_of(post.pending) == total);
                } else if after.len() - before.len() == block_events(blocks[0]).len() {
                    lemma_numbers_of_first(blocks);
                    let first = checkpoint_of(blocks[0]);
                    let rest = numbers_of(blocks.skip(1));
                    assert(run.checkpoints(n) == asked + first);
                    assert((asked + first) + rest == asked + (first + rest));
                    assert(run.checkpoints(n).is_prefix_of(total)) by {
                        assert(total.subrange(0, (asked + first).len() as int) == asked + first);
                    }
                } else {
                    assert(run.checkpoints(n) == asked);
                    assert(asked.is_prefix_of(total));
                }
            },
        }
    }
}

/// When the consumer is gone the checkpoints stop short of the refused block.
/// If step `n` of a run offers a block's events and the queue refuses one,
/// then the checkpoints asked for so far are exactly those of the blocks
/// received before that block: followed by the checkpoints of that block and
/// of the blocks after it, they are the checkpoints of all blocks received.
pub proof fn lemma_refusal_keeps_checkpoints(run: Run, n: int)
    requires
        run.valid(),
        run.fresh(),
        0 <= n < run.events.len(),
        blocks_at_hand(run.states[n], run.events[n]) matches Some(blocks) && blocks.len() > 0
            && run.delivered[n + 1].len() - run.delivered[n].len() < block_events(
            blocks[0],
        ).len(),
    ensures
        run.actions[n] == LoopAction::Stop,
        run.checkpoints(n + 1) == run.checkpoints(n),
        blocks_at_hand(run.states[n], run.events[n]) matches Some(blocks) && run.checkpoints(
            n + 1,
        ) + numbers_of(blocks) == numbers_of(run.received(n + 1)),
{
    lemma_checkpoint_invariant(run, n);
    let pre = run.states[n];
    let event = run.events[n];
    let blocks = blocks_at_hand(pre, event)->0;
    let got = taken_up(pre, event);
    assert(step(
        pre,
        run.delivered[n],
        event,
        run.states[n + 1],
        run.delivered[n + 1],
        run.actions[n],
    ));
    lemma_numbers_of_concat(run.received(n), got);
    lemma_numbers_of_none();
    let asked = run.checkpoints(n);
    assert(numbers_of(pre.pending) + numbers_of(got) == numbers_of(blocks)) by {
        if pre.phase == Phase::Streaming {
            assert(got == blocks);
        } else {
            assert(got == Seq::<Block>::empty());
        }
    }
    assert((asked + numbers_of(pre.pending)) + numbers_of(got) == asked + (numbers_of(
        pre.pending,
    ) + numbers_of(got)));
}

/// Checkpoints follow the blocks: one for each block with a header whose
/// events were all queued, in arrival order.
///
/// In a run that starts with a fresh loop, the block numbers for which
/// checkpoints have been asked are a prefix of the numbers of the blocks
/// received, and whenever the loop is waiting for the next message a
/// checkpoint has been asked for every block received. So where the stream
/// delivers blocks in ascending order, no checkpoint is lower than one asked
/// for before it.
pub proof fn lemma_checkpoints_follow_blocks(run: Run, n: int)
    requires
        run.valid(),
        run.fresh(),
        0 <= n <= run.events.len(),
    ensures
        run.checkpoints(n).is_prefix_of(numbers_of(run.received(n))),
        run.states[n].phase == Phase::Streaming ==> run.checkpoints(n) == numbers_of(
            run.received(n),
        ),
{
    lemma_checkpoint_invariant(run, n);
    lemma_numbers_of_none();
    if run.states[n].phase == Phase::Streaming {
        assert(numbers_of(run.states[n].pending) == Seq::<u64>::empty());
        assert(run.checkpoints(n) + Seq::<u64>::empty() == run.checkpoints(n));
    }
}

/// An invalidation fails the loop. The step that meets an `Invalidate`
/// message while streaming ends in phase `Failed` with the message's cursor
/// as the cause, answers `Fail`, and offers nothing to the consumer.
pub proof fn lemma_invalidate_fails(
    pre: LoopModel,
    delivered: Seq<EventDataView>,
    cursor: Option<Cursor>,
    post: LoopModel,
    delivered_after: Seq<EventDataView>,
    action: LoopAction,
)
    requires
        pre.phase == Phase::Streaming,
        step(
            pre,
            delivered,
            LoopEvent::Message(DataMessage::Invalidate { cursor }),
            post,
            delivered_after,
            action,
        ),
    ensures
        post.phase == Phase::Failed,
        post.failure == Some(IndexerErrorView::Invalidated { cursor }),
        action == LoopAction::Fail,
        delivered_after == delivered,
{
}

/// A consumer that is gone stops the loop without an error. When a step
/// offers a block's events and the queue takes fewer than all of them, the
/// loop ends in phase `Stopped`, answers `Stop`, records no failure and asks
/// for no checkpoint; what the queue took is the block's events up to the one
/// it refused.
pub proof fn lemma_refusal_stops(
    pre: LoopModel,
    delivered: Seq<EventDataView>,
    event: LoopEvent,
    post: LoopModel,
    delivered_after: Seq<EventDataView>,
    action: LoopAction,
)
    requires
        step(pre, delivered, event, post, delivered_after, action),
        blocks_at_hand(pre, event) matches Some(blocks) && blocks.len() > 0
            && delivered_after.len() - delivered.len() < block_events(blocks[0]).len(),
    ensures
        post.phase == Phase::Stopped,
        post.failure is None,
        action == LoopAction::Stop,
        blocks_at_hand(pre, event) matches Some(blocks) && delivered_after
            == delivered + block_events(blocks[0]).take(delivered_after.len() - delivered.len()),
{
}

/// Once the loop has ended it stays ended: whatever is reported after that,
/// the state and the queue's record stay as they are and the answer is `Stop`
/// or `Fail` again. In particular no checkpoint is asked for after a
/// failure, so none is written past an invalidation.
pub proof fn lemma_ended_stays_ended(run: Run, i: int, j: int)
    requires
        run.valid(),
        0 <= i <= j < run.events.len(),
        !running(run.states[i].phase),
    ensures
        run.states[j + 1] == run.states[i],
        run.delivered[j + 1] == run.delivered[i],
        run.actions[j] == if run.states[i].phase == Phase::Failed {
            LoopAction::Fail
        } else {
            LoopAction::Stop
        },
    decreases j - i,
{
    if i < j {
        lemma_ended_stays_ended(run, i, j - 1);
    }
    assert(step(
        run.states[j],
        run.delivered[j],
        run.events[j],
        run.states[j + 1],
        run.delivered[j + 1],
        run.actions[j],
    ));
}

} // verus!

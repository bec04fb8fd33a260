//! Per-block deadline on a stream of blocks.
//!
//! The guard decides; whoever drives the stream reports what happened
//! (a block arrived, the source ran dry, the deadline timer fired) and does
//! what the guard answers. The deadline starts `timeout` after the guard is
//! made and is moved to `timeout` after each forwarded block; a block that
//! arrives at or after the deadline ends the guarded stream, as does the
//! timer, and no error is ever handed on.
use vstd::prelude::*;
use bytes::Bytes;

verus! {

/// The per-block deadline that the server uses, in milliseconds.
pub const SEND_TIMEOUT_MS: u64 = 20_000;

/// What happened while the guard was waiting. Times are in the caller's
/// clock, in milliseconds, and never go back.
pub enum GuardEvent {
    /// The source produced a block at time `at`.
    Block { block: Bytes, at: u64 },
    /// The source has no more blocks.
    Exhausted,
    /// The deadline timer fired at time `at`.
    Elapsed { at: u64 },
}

/// What the driver does next.
pub enum GuardAction {
    /// Hand this block on, unchanged.
    Forward(Bytes),
    /// Keep waiting.
    Wait,
    /// End the guarded stream as if the source had run dry.
    End,
}

/// What a guard is.
pub struct GuardView {
    pub timeout: u64,
    pub deadline: u64,
    pub ended: bool,
    pub forwarded: nat,
}

/// `a + b`, or `u64::MAX` where that does not fit.
pub open spec fn sat_add(a: u64, b: u64) -> u64 {
    if a + b > u64::MAX {
        u64::MAX
    } else {
        (a + b) as u64
    }
}

/// The guard after one event, and what it answers.
pub open spec fn guard_step(g: GuardView, e: GuardEvent) -> (GuardView, GuardAction) {
    if g.ended {
        (g, GuardAction::End)
    } else {
        match e {
            GuardEvent::Block { block, at } => if at < g.deadline {
                (
                    GuardView { deadline: sat_add(at, g.timeout), forwarded: g.forwarded + 1, ..g },
                    GuardAction::Forward(block),
                )
            } else {
                (GuardView { ended: true, ..g }, GuardAction::End)
            },
            GuardEvent::Exhausted => (GuardView { ended: true, ..g }, GuardAction::End),
            GuardEvent::Elapsed { at } => if at >= g.deadline {
                (GuardView { ended: true, ..g }, GuardAction::End)
            } else {
                (g, GuardAction::Wait)
            },
        }
    }
}

/// The guard after a run of events, and its answers in order.
pub open spec fn guard_run(g: GuardView, events: Seq<GuardEvent>) -> (GuardView, Seq<GuardAction>)
    decreases events.len(),
{
    if events.len() == 0 {
        (g, Seq::empty())
    } else {
        let (g1, a) = guard_step(g, events[0]);
        let (g2, rest) = guard_run(g1, events.drop_first());
        (g2, seq![a] + rest)
    }
}

/// Blocks arriving at the given times.
pub open spec fn arrivals(blocks: Seq<Bytes>, times: Seq<u64>) -> Seq<GuardEvent> {
    Seq::new(blocks.len(), |k: int| GuardEvent::Block { block: blocks[k], at: times[k] })
}

/// Every block arrives before the deadline in force when it comes, the
/// first one before `deadline`.
pub open spec fn all_prompt(deadline: u64, timeout: u64, times: Seq<u64>) -> bool
    decreases times.len(),
{
    times.len() == 0 || (times[0] < deadline && all_prompt(
        sat_add(times[0], timeout),
        timeout,
        times.drop_first(),
    ))
}

/// The blocks before index `k` are prompt and block `k` is late.
pub open spec fn first_late(deadline: u64, timeout: u64, times: Seq<u64>, k: nat) -> bool
    decreases k,
{
    times.len() > 0 && if k == 0 {
        times[0] >= deadline
    } else {
        times[0] < deadline && first_late(
            sat_add(times[0], timeout),
            timeout,
            times.drop_first(),
            (k - 1) as nat,
        )
    }
}

/// The deadline state of one guarded stream.
pub struct TimeoutGuard {
    timeout: u64,
    deadline: u64,
    ended: bool,
    forwarded: u64,
}

impl View for TimeoutGuard {
    type V = GuardView;

    closed spec fn view(&self) -> GuardView {
        GuardView {
            timeout: self.timeout,
            deadline: self.deadline,
            ended: self.ended,
            forwarded: self.forwarded as nat,
        }
    }
}

impl TimeoutGuard {
    /// A guard made at time `now` whose first deadline is `now + timeout`.
    pub fn new(now: u64, timeout: u64) -> (r: TimeoutGuard)
        ensures
            r@ == (GuardView { timeout, deadline: sat_add(now, timeout), ended: false, forwarded: 0 }),
    {
        TimeoutGuard { timeout, deadline: now.saturating_add(timeout), ended: false, forwarded: 0 }
    }

    /// The time at which the guarded stream ends unless a block comes first.
    pub fn deadline(&self) -> (r: u64)
        ensures
            r == self@.deadline,
    {
        self.deadline
    }

    /// Whether the guarded stream has ended.
    pub fn is_ended(&self) -> (r: bool)
        ensures
            r == self@.ended,
    {
        self.ended
    }

    /// Blocks forwarded so far.
    pub fn forwarded(&self) -> (r: u64)
        ensures
            r == self@.forwarded,
    {
        self.forwarded
    }

    /// Takes in one event and answers what to do.
    pub fn step(&mut self, event: GuardEvent) -> (r: GuardAction)
        requires
            old(self)@.forwarded < u64::MAX,
        ensures
            (final(self)@, r) == guard_step(old(self)@, event),
    {
        if self.ended {
            return GuardAction::End;
        }
        match event {
            GuardEvent::Block { block, at } => {
                if at < self.deadline {
                    self.deadline = at.saturating_add(self.timeout);
                    self.forwarded = self.forwarded + 1;
                    GuardAction::Forward(block)
                } else {
                    self.ended = true;
                    GuardAction::End
                }
            },
            GuardEvent::Exhausted => {
                self.ended = true;
                GuardAction::End
            },
            GuardEvent::Elapsed { at } => {
                if at >= self.deadline {
                    self.ended = true;
                    GuardAction::End
                } else {
                    GuardAction::Wait
                }
            },
        }
    }
}

/// A consumer that takes every block before its deadline gets every block,
/// unchanged and in order.
pub proof fn lemma_prompt_blocks_pass(g: GuardView, blocks: Seq<Bytes>, times: Seq<u64>)
    requires
        !g.ended,
        times.len() == blocks.len(),
        all_prompt(g.deadline, g.timeout, times),
    ensures
        guard_run(g, arrivals(blocks, times)).1 == Seq::new(
            blocks.len(),
            |k: int| GuardAction::Forward(blocks[k]),
        ),
        guard_run(g, arrivals(blocks, times)).0.forwarded == g.forwarded + blocks.len(),
        !guard_run(g, arrivals(blocks, times)).0.ended,
    decreases blocks.len(),
{
    let evs = arrivals(blocks, times);
    if blocks.len() > 0 {
        let g1 = guard_step(g, evs[0]).0;
        assert(evs.drop_first() =~= arrivals(blocks.drop_first(), times.drop_first()));
        lemma_prompt_blocks_pass(g1, blocks.drop_first(), times.drop_first());
        assert(guard_run(g, evs).1 =~= Seq::new(blocks.len(), |k: int| GuardAction::Forward(blocks[k])));
    }
}

/// Once a guard has ended it answers `End` to everything.
pub proof fn lemma_ended_stays_ended(g: GuardView, events: Seq<GuardEvent>)
    requires
        g.ended,
    ensures
        guard_run(g, events).1 == Seq::new(events.len(), |k: int| GuardAction::End),
        guard_run(g, events).0 == g,
    decreases events.len(),
{
    if events.len() > 0 {
        lemma_ended_stays_ended(g, events.drop_first());
        assert(guard_run(g, events).1 =~= Seq::new(events.len(), |k: int| GuardAction::End));
    }
}

/// Where block `k` (from 0) is the first to miss its deadline, the guarded
/// stream hands on exactly the `k` blocks before it, then ends, and answers
/// `End` to everything after.
pub proof fn lemma_late_block_ends(g: GuardView, blocks: Seq<Bytes>, times: Seq<u64>, k: nat)
    requires
        !g.ended,
        times.len() == blocks.len(),
        first_late(g.deadline, g.timeout, times, k),
    ensures
        k < blocks.len(),
        guard_run(g, arrivals(blocks, times)).1 == Seq::new(
            blocks.len(),
            |i: int| if i < k { GuardAction::Forward(blocks[i]) } else { GuardAction::End },
        ),
        guard_run(g, arrivals(blocks, times)).0.forwarded == g.forwarded + k,
        guard_run(g, arrivals(blocks, times)).0.ended,
    decreases k,
{
    let evs = arrivals(blocks, times);
    let g1 = guard_step(g, evs[0]).0;
    assert(evs.drop_first() =~= arrivals(blocks.drop_first(), times.drop_first()));
    if k == 0 {
        lemma_ended_stays_ended(g1, evs.drop_first());
    } else {
        lemma_late_block_ends(g1, blocks.drop_first(), times.drop_first(), (k - 1) as nat);
    }
    assert(guard_run(g, evs).1 =~= Seq::new(
        blocks.len(),
        |i: int| if i < k { GuardAction::Forward(blocks[i]) } else { GuardAction::End },
    ));
}

} // verus!

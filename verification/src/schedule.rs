//! Scheduling side of the sweep actor: the cooldown (debounce) state, the
//! decision taken on each wakeup of the loop, and proofs that the cooldown
//! policy coalesces bursts of requests.
//!
//! The loop that owns this state blocks on the first of two wakeup sources (a
//! recurring timer and a bounded signal inbox); every wakeup is reduced here to
//! a [`WakeEvent`], and the decision what to do next is pure logic over the
//! cooldown state and the current time.  A sweep is modelled as completing at
//! the time of the wakeup that started it; the running loop stamps the actual
//! completion time, which is no earlier, so the quiet window it enforces is at
//! least as long as the one proved here.

use vstd::prelude::*;

verus! {

/// Minimum quiet time between the end of one sweep and the start of the next,
/// in milliseconds.
pub const COOLDOWN_MS: u64 = 10_000;

/// Period of the recurring timer that drives scheduled sweeps, in
/// milliseconds.  The first tick is due one full period after startup, and
/// missed ticks are coalesced, never replayed in a burst.
pub const TICK_PERIOD_MS: u64 = 60_000;

/// Capacity of the signal inbox.  When it is full, further requests are
/// dropped silently: the inbox guarantees at least one pending request, not
/// one delivery per call.
pub const INBOX_CAPACITY: usize = 4;

/// What woke the loop up.
#[derive(Clone, Copy, PartialEq, Eq, Structural, Debug)]
pub enum WakeEvent {
    /// The recurring timer fired.
    Tick,
    /// A sweep was requested through the inbox.
    Signal,
    /// The inbox was closed: no senders remain.
    Closed,
}

/// What the loop does in response to a wakeup.
#[derive(Clone, Copy, PartialEq, Eq, Structural, Debug)]
pub enum Decision {
    /// Run the batch-sweep routine to completion, then record the time.
    StartSweep,
    /// Coalesce the wakeup: the cooldown window has not elapsed.
    Skip,
    /// Exit the loop; the actor performs no further work.
    Terminate,
}

/// Debounce state of the actor: the time of the last completed sweep, in
/// milliseconds of a monotonic clock.  Seeded with the creation time, so no
/// sweep fires within the first cooldown window after startup.
#[derive(Clone, Copy, PartialEq, Eq, Structural, Debug)]
pub struct Cooldown {
    pub last_done_ms: u64,
}

impl Cooldown {
    /// A sweep may start at `now_ms` only if strictly more than the cooldown
    /// window has elapsed since the last completed sweep.
    pub open spec fn eligible_spec(self, now_ms: u64) -> bool {
        now_ms > self.last_done_ms + COOLDOWN_MS
    }

    /// The decision the loop takes on a wakeup: closure terminates it
    /// unconditionally; anything else sweeps exactly when the cooldown window
    /// has elapsed.
    pub open spec fn decision_spec(self, event: WakeEvent, now_ms: u64) -> Decision {
        if event is Closed {
            Decision::Terminate
        } else if self.eligible_spec(now_ms) {
            Decision::StartSweep
        } else {
            Decision::Skip
        }
    }

    /// Creates the debounce state at startup time `now_ms`.
    pub fn new(now_ms: u64) -> (c: Self)
        ensures
            c.last_done_ms == now_ms,
    {
        Cooldown { last_done_ms: now_ms }
    }

    /// Whether the cooldown window has elapsed at `now_ms`.
    pub fn eligible(&self, now_ms: u64) -> (r: bool)
        ensures
            r == self.eligible_spec(now_ms),
    {
        now_ms > self.last_done_ms && now_ms - self.last_done_ms > COOLDOWN_MS
    }

    /// Reduces one wakeup to the loop's next step.
    pub fn on_wake(&self, event: WakeEvent, now_ms: u64) -> (d: Decision)
        ensures
            d == self.decision_spec(event, now_ms),
            d is Terminate <==> event is Closed,
            d is StartSweep <==> !(event is Closed) && self.eligible_spec(now_ms),
            d is Skip <==> !(event is Closed) && !self.eligible_spec(now_ms),
    {
        match event {
            WakeEvent::Closed => Decision::Terminate,
            _ => {
                if self.eligible(now_ms) {
                    Decision::StartSweep
                } else {
                    Decision::Skip
                }
            },
        }
    }

    /// Records that a sweep completed at `now_ms`.
    pub fn record_sweep_done(&mut self, now_ms: u64)
        ensures
            final(self).last_done_ms == now_ms,
    {
        self.last_done_ms = now_ms;
    }
}

/// The cooldown state and sweep count after the loop has processed a sequence
/// of wakeups, each paired with the time it was observed.  Processing stops at
/// the first closure; an eligible wakeup counts one sweep and moves the
/// cooldown to its time.
pub open spec fn run_spec(c: Cooldown, events: Seq<(WakeEvent, u64)>) -> (Cooldown, nat)
    decreases events.len(),
{
    if events.len() == 0 {
        (c, 0)
    } else {
        let ev = events[0].0;
        let t = events[0].1;
        if ev is Closed {
            (c, 0)
        } else if c.eligible_spec(t) {
            let rest = run_spec(Cooldown { last_done_ms: t }, events.skip(1));
            (rest.0, rest.1 + 1)
        } else {
            run_spec(c, events.skip(1))
        }
    }
}

/// How many sweeps run while the loop processes `events` starting from
/// cooldown state `c`.
pub open spec fn sweep_count(c: Cooldown, events: Seq<(WakeEvent, u64)>) -> nat {
    run_spec(c, events).1
}

/// Processes a sequence of wakeups against a cooldown state, counting the
/// sweeps that the decisions start.  This is the loop skeleton the actor
/// runs, with the sweep itself abstracted to its completion time.
pub fn run_wakes(c: Cooldown, events: &Vec<(WakeEvent, u64)>) -> (r: (Cooldown, usize))
    ensures
        r.0 == run_spec(c, events@).0,
        r.1 == sweep_count(c, events@),
{
    let mut cur = c;
    let mut count: usize = 0;
    let mut i: usize = 0;
    proof {
        assert(events@.skip(0) =~= events@);
    }
    loop
        invariant_except_break
            i <= events@.len(),
            count <= i,
            run_spec(c, events@).0 == run_spec(cur, events@.skip(i as int)).0,
            run_spec(c, events@).1 == count + run_spec(cur, events@.skip(i as int)).1,
        ensures
            run_spec(c, events@).0 == cur,
            run_spec(c, events@).1 == count,
        decreases events@.len() - i,
    {
        if i >= events.len() {
            assert(events@.skip(i as int) =~= Seq::<(WakeEvent, u64)>::empty());
            break;
        }
        let (ev, t) = events[i];
        assert(events@.skip(i as int)[0] == events@[i as int]);
        assert(events@.skip(i as int).skip(1) =~= events@.skip(i as int + 1));
        match ev {
            WakeEvent::Closed => {
                break;
            },
            _ => {
                if cur.eligible(t) {
                    cur = Cooldown { last_done_ms: t };
                    count = count + 1;
                }
            },
        }
        i = i + 1;
    }
    (cur, count)
}

/// Debounce law, first half: while every wakeup falls within the cooldown
/// window after the last completed sweep, no sweep runs at all — the requests
/// are coalesced and discarded.
pub proof fn lemma_no_sweep_within_window(c: Cooldown, events: Seq<(WakeEvent, u64)>)
    requires
        forall|k: int|
            0 <= k < events.len() ==> (#[trigger] events[k]).1 <= c.last_done_ms + COOLDOWN_MS,
    ensures
        sweep_count(c, events) == 0,
    decreases events.len(),
{
    if events.len() > 0 {
        assert(events[0].1 <= c.last_done_ms + COOLDOWN_MS);
        assert(!c.eligible_spec(events[0].1));
        if !(events[0].0 is Closed) {
            lemma_no_sweep_within_window(c, events.skip(1));
        }
    }
}

/// Debounce law, second half: all wakeups observed within one span no longer
/// than the cooldown window start at most one sweep, whatever the cooldown
/// state was before — the first eligible wakeup sweeps and silences the rest
/// of the span.
pub proof fn lemma_burst_coalesced(c: Cooldown, events: Seq<(WakeEvent, u64)>, start: u64)
    requires
        forall|k: int|
            0 <= k < events.len() ==> start <= (#[trigger] events[k]).1 <= start + COOLDOWN_MS,
    ensures
        sweep_count(c, events) <= 1,
    decreases events.len(),
{
    if events.len() > 0 {
        let t0 = events[0].1;
        if events[0].0 is Closed {
        } else if c.eligible_spec(t0) {
            assert forall|k: int| 0 <= k < events.skip(1).len() implies (#[trigger] events.skip(
                1,
            )[k]).1 <= t0 + COOLDOWN_MS by {
                assert(events.skip(1)[k] == events[k + 1]);
            }
            lemma_no_sweep_within_window(Cooldown { last_done_ms: t0 }, events.skip(1));
        } else {
            lemma_burst_coalesced(c, events.skip(1), start);
        }
    }
}

/// Debounce law, combined: after a completed sweep, wakeups processed inside
/// the cooldown window are all coalesced, and the wakeups processed once the
/// window has elapsed — as long as they fall within one window-sized span,
/// as a drained burst of queued requests does — start at most one further
/// sweep.
pub proof fn lemma_debounce(c: Cooldown, events: Seq<(WakeEvent, u64)>, m: int)
    requires
        0 <= m <= events.len(),
        forall|k: int| 0 <= k < m ==> (#[trigger] events[k]).1 <= c.last_done_ms + COOLDOWN_MS,
        forall|k: int|
            m <= k < events.len() ==> events[m].1 <= (#[trigger] events[k]).1 <= events[m].1 + COOLDOWN_MS,
    ensures
        sweep_count(c, events) <= 1,
    decreases m,
{
    if m == 0 {
        if events.len() == 0 {
        } else {
            lemma_burst_coalesced(c, events, events[0].1);
        }
    } else {
        assert(!c.eligible_spec(events[0].1));
        if events[0].0 is Closed {
        } else {
            assert forall|k: int| 0 <= k < m - 1 implies (#[trigger] events.skip(1)[k]).1
                <= c.last_done_ms + COOLDOWN_MS by {
                assert(events.skip(1)[k] == events[k + 1]);
            }
            assert forall|k: int|
                m - 1 <= k < events.skip(1).len() implies events.skip(1)[m - 1].1
                <= (#[trigger] events.skip(1)[k]).1 <= events.skip(1)[m - 1].1 + COOLDOWN_MS by {
                assert(events.skip(1)[k] == events[k + 1]);
                assert(events.skip(1)[m - 1] == events[m]);
            }
            lemma_debounce(c, events.skip(1), m - 1);
        }
    }
}

/// Termination law: a closure at the end of the wakeup sequence terminates the
/// loop without cancelling any sweep decided before it — the count is exactly
/// that of the sequence without the closure.
pub proof fn lemma_close_after_work(c: Cooldown, events: Seq<(WakeEvent, u64)>, t: u64)
    requires
        forall|k: int| 0 <= k < events.len() ==> !((#[trigger] events[k]).0 is Closed),
    ensures
        sweep_count(c, events.push((WakeEvent::Closed, t))) == sweep_count(c, events),
    decreases events.len(),
{
    let pushed = events.push((WakeEvent::Closed, t));
    if events.len() == 0 {
        assert(pushed[0].0 is Closed);
    } else {
        assert(pushed[0] == events[0]);
        assert(pushed.skip(1) =~= events.skip(1).push((WakeEvent::Closed, t)));
        if events[0].0 is Closed {
        } else {
            assert forall|k: int|
                0 <= k < events.skip(1).len() implies !((#[trigger] events.skip(1)[k]).0
                is Closed) by {
                assert(events.skip(1)[k] == events[k + 1]);
            }
            if c.eligible_spec(events[0].1) {
                lemma_close_after_work(
                    Cooldown { last_done_ms: events[0].1 },
                    events.skip(1),
                    t,
                );
            } else {
                lemma_close_after_work(c, events.skip(1), t);
            }
        }
    }
}

} // verus!

//! Debouncing of change notifications.
//!
//! While a build is watched, every batch of filesystem events asks for a
//! rebuild. A rebuild is granted only when more than the debounce window has
//! passed since the last one finished; a batch that arrives earlier is
//! discarded for good, it is not queued. Time is a count of milliseconds on
//! a clock that never runs backwards.

use vstd::prelude::*;

verus! {

/// The debounce window, in milliseconds.
pub const DEBOUNCE_MILLIS: u64 = 2000;

/// What to do with a batch of change events.
#[derive(Debug, Clone, Copy, PartialEq, Eq, Structural)]
pub enum WatchAction {
    /// Run a full build now, then report when it finished.
    Rebuild,
    /// Ignore the batch.
    Discard,
}

/// A batch of change events as the watch loop sees it: when it arrived and,
/// should it trigger a rebuild, when that rebuild finishes.
pub struct Arrival {
    pub at: u64,
    pub rebuilt_at: u64,
}

/// The time that passed between `last` and `now`, zero if the clock did not move forward.
pub open spec fn elapsed(last: u64, now: u64) -> int {
    if now >= last {
        now - last
    } else {
        0
    }
}

/// Whether a batch arriving at `now` triggers a rebuild when the last
/// rebuild finished at `last`.
pub open spec fn fires(last: u64, now: u64) -> bool {
    elapsed(last, now) > DEBOUNCE_MILLIS
}

/// The time of the last trigger after the batches `arrivals` were handled in order.
pub open spec fn last_trigger_after(last: u64, arrivals: Seq<Arrival>) -> u64
    decreases arrivals.len(),
{
    if arrivals.len() == 0 {
        last
    } else {
        let before = last_trigger_after(last, arrivals.drop_last());
        if fires(before, arrivals.last().at) {
            arrivals.last().rebuilt_at
        } else {
            before
        }
    }
}

/// How many rebuilds the batches `arrivals` trigger when handled in order.
pub open spec fn rebuild_count(last: u64, arrivals: Seq<Arrival>) -> nat
    decreases arrivals.len(),
{
    if arrivals.len() == 0 {
        0
    } else {
        let before = last_trigger_after(last, arrivals.drop_last());
        let fired: nat = if fires(before, arrivals.last().at) {
            1
        } else {
            0
        };
        rebuild_count(last, arrivals.drop_last()) + fired
    }
}

/// Batches that all arrive within the window of the last rebuild trigger
/// nothing and leave the time of the last trigger as it was.
pub proof fn lemma_within_window_nothing_fires(last: u64, arrivals: Seq<Arrival>)
    requires
        forall|i: int| 0 <= i < arrivals.len() ==> !fires(last, #[trigger] arrivals[i].at),
    ensures
        rebuild_count(last, arrivals) == 0,
        last_trigger_after(last, arrivals) == last,
    decreases arrivals.len(),
{
    if arrivals.len() > 0 {
        let front = arrivals.drop_last();
        assert forall|i: int| 0 <= i < front.len() implies !fires(last, #[trigger] front[i].at) by {
            assert(front[i] == arrivals[i]);
        }
        lemma_within_window_nothing_fires(last, front);
    }
}

/// Handling one batch, then the rest, is handling them all.
pub proof fn lemma_rebuild_count_first(last: u64, arrivals: Seq<Arrival>)
    requires
        arrivals.len() > 0,
    ensures
        ({
            let first = arrivals[0];
            let then = if fires(last, first.at) {
                first.rebuilt_at
            } else {
                last
            };
            let fired: nat = if fires(last, first.at) {
                1
            } else {
                0
            };
            &&& rebuild_count(last, arrivals) == fired + rebuild_count(then, arrivals.drop_first())
            &&& last_trigger_after(last, arrivals) == last_trigger_after(
                then,
                arrivals.drop_first(),
            )
        }),
    decreases arrivals.len(),
{
    let front = arrivals.drop_last();
    if arrivals.len() == 1 {
        reveal_with_fuel(rebuild_count, 2);
        reveal_with_fuel(last_trigger_after, 2);
        assert(front == Seq::<Arrival>::empty());
        assert(arrivals.drop_first() == Seq::<Arrival>::empty());
        assert(arrivals.last() == arrivals[0]);
    } else {
        lemma_rebuild_count_first(last, front);
        assert(front[0] == arrivals[0]);
        assert(arrivals.drop_first().drop_last() == front.drop_first());
        assert(arrivals.drop_first().last() == arrivals.last());
    }
}

/// A burst gives exactly one rebuild: when the first batch arrives after
/// the window and every later batch arrives within the window of the
/// rebuild that the first one triggered, one rebuild runs and every later
/// batch is discarded.
pub proof fn lemma_burst_rebuilds_once(last: u64, arrivals: Seq<Arrival>)
    requires
        arrivals.len() > 0,
        fires(last, arrivals[0].at),
        forall|i: int|
            0 < i < arrivals.len() ==> !fires(arrivals[0].rebuilt_at, #[trigger] arrivals[i].at),
    ensures
        rebuild_count(last, arrivals) == 1,
        last_trigger_after(last, arrivals) == arrivals[0].rebuilt_at,
{
    let rest = arrivals.drop_first();
    lemma_rebuild_count_first(last, arrivals);
    assert forall|i: int| 0 <= i < rest.len() implies !fires(
        arrivals[0].rebuilt_at,
        #[trigger] rest[i].at,
    ) by {
        assert(rest[i] == arrivals[i + 1]);
    }
    lemma_within_window_nothing_fires(arrivals[0].rebuilt_at, rest);
}

/// A batch that arrives after the window has elapsed triggers a new
/// rebuild, whatever came before it.
pub proof fn lemma_late_event_rebuilds(last: u64, arrivals: Seq<Arrival>, late: Arrival)
    requires
        fires(last_trigger_after(last, arrivals), late.at),
    ensures
        rebuild_count(last, arrivals.push(late)) == rebuild_count(last, arrivals) + 1,
        last_trigger_after(last, arrivals.push(late)) == late.rebuilt_at,
{
    assert(arrivals.push(late).drop_last() == arrivals);
}

/// The state of the watch loop: when the last rebuild was triggered.
#[derive(Debug, Clone, Copy, PartialEq, Eq)]
pub struct WatchLoop {
    last_trigger: u64,
}

impl WatchLoop {
    /// When the last rebuild finished, or when watching began if none ran yet.
    pub closed spec fn last_trigger(&self) -> u64 {
        self.last_trigger
    }

    /// Whether a rebuild fired within the last window before `now`, so that
    /// a batch arriving at `now` would be discarded.
    pub open spec fn in_cooldown(&self, now: u64) -> bool {
        !fires(self.last_trigger(), now)
    }

    /// The state at the moment the subscription is made.
    pub fn new(now: u64) -> (state: Self)
        ensures
            state.last_trigger() == now,
    {
        WatchLoop { last_trigger: now }
    }

    /// Decides what to do with a batch of change events that arrives at
    /// `now`: rebuild when more than the window has passed since the last
    /// trigger, discard otherwise. The state does not change; after a
    /// rebuild the caller reports its end with `rebuilt`.
    pub fn on_event(&self, now: u64) -> (action: WatchAction)
        ensures
            action == (if self.in_cooldown(now) {
                WatchAction::Discard
            } else {
                WatchAction::Rebuild
            }),
    {
        if now >= self.last_trigger && now - self.last_trigger > DEBOUNCE_MILLIS {
            WatchAction::Rebuild
        } else {
            WatchAction::Discard
        }
    }

    /// Records that the rebuild finished at `now`: the window starts again there.
    pub fn rebuilt(&mut self, now: u64)
        ensures
            final(self).last_trigger() == now,
    {
        self.last_trigger = now;
    }

    /// Handles one batch in one call, for a caller that knows beforehand
    /// when a rebuild would finish: decides as `on_event` does and, on a
    /// rebuild, moves the last trigger to `batch.rebuilt_at`.
    pub fn step(&mut self, batch: &Arrival) -> (action: WatchAction)
        ensures
            final(self).last_trigger() == last_trigger_after(
                old(self).last_trigger(),
                seq![*batch],
            ),
            (action == WatchAction::Rebuild) == fires(old(self).last_trigger(), batch.at),
            (action == WatchAction::Discard) == !fires(old(self).last_trigger(), batch.at),
    {
        proof {
            reveal_with_fuel(last_trigger_after, 2);
            assert(seq![*batch].drop_last() == Seq::<Arrival>::empty());
        }
        let action = self.on_event(batch.at);
        match action {
            WatchAction::Rebuild => {
                self.rebuilt(batch.rebuilt_at);
            },
            WatchAction::Discard => {},
        }
        action
    }

    /// Handles the batches in order and counts the rebuilds they trigger.
    pub fn replay(&mut self, batches: &Vec<Arrival>) -> (rebuilds: usize)
        ensures
            rebuilds == rebuild_count(old(self).last_trigger(), batches@),
            final(self).last_trigger() == last_trigger_after(old(self).last_trigger(), batches@),
    {
        let mut rebuilds: usize = 0;
        let mut i: usize = 0;
        let ghost start = self.last_trigger();
        while i < batches.len()
            invariant
                i <= batches.len(),
                rebuilds <= i,
                rebuilds == rebuild_count(start, batches@.take(i as int)),
                self.last_trigger() == last_trigger_after(start, batches@.take(i as int)),
            decreases batches.len() - i,
        {
            proof {
                assert(batches@.take(i + 1).drop_last() == batches@.take(i as int));
            }
            match self.on_event(batches[i].at) {
                WatchAction::Rebuild => {
                    self.rebuilt(batches[i].rebuilt_at);
                    rebuilds = rebuilds + 1;
                },
                WatchAction::Discard => {},
            }
            i = i + 1;
        }
        assert(batches@.take(i as int) == batches@);
        rebuilds
    }
}

} // verus!

//! The debounce rule of the watch loop.
//!
//! Times are nanoseconds on a clock of the caller's choice that never runs
//! backwards.

use vstd::prelude::*;

verus! {

/// An event must come more than this long after the last trigger to trigger
/// a rebuild: one second.
pub const DEBOUNCE_NANOS: u64 = 1_000_000_000;

/// How long the loop waits between a trigger and the rebuild, for a burst of
/// events to land: 100 milliseconds.
pub const SETTLE_NANOS: u64 = 100_000_000;

/// What happened to a watched path.
#[derive(Clone, Copy, Debug, PartialEq, Eq)]
pub enum EventKind {
    Create,
    Modify,
    Remove,
    Other,
}

/// What the loop does about an event.
#[derive(Clone, Copy, Debug, PartialEq, Eq)]
pub enum WatchAction {
    /// Nothing: the event is dropped.
    Ignore,
    /// Wait for `SETTLE_NANOS`, rebuild, then report `rebuild_finished`.
    Rebuild,
}

/// The state of the watch loop: idle, or suppressed while a rebuild that it
/// triggered is under way.
#[derive(Clone, Copy, Debug, PartialEq, Eq)]
pub struct Debouncer {
    /// When the last rebuild was triggered.
    pub last_trigger: u64,
    /// Whether that rebuild is still under way.
    pub suppressed: bool,
}

/// Whether an event of this kind is a change to the tree.
pub open spec fn is_change(kind: EventKind) -> bool {
    kind is Create || kind is Modify || kind is Remove
}

/// The time from `last` to `now`; zero if `now` is the earlier one.
pub open spec fn elapsed(last: u64, now: u64) -> int {
    if now >= last {
        now - last
    } else {
        0
    }
}

/// Whether an event of kind `kind` at time `now` triggers a rebuild: it is a
/// change, no rebuild is under way, and more than the debounce time has
/// passed since the last trigger.
pub open spec fn triggers(state: Debouncer, kind: EventKind, now: u64) -> bool {
    is_change(kind) && !state.suppressed && elapsed(state.last_trigger, now) > DEBOUNCE_NANOS
}

/// The state after an event: a trigger is recorded with its time, any other
/// event leaves the state as it was.
pub open spec fn after_event(state: Debouncer, kind: EventKind, now: u64) -> Debouncer {
    if triggers(state, kind, now) {
        Debouncer { last_trigger: now, suppressed: true }
    } else {
        state
    }
}

/// The state after the rebuild has finished: idle again, the time of the
/// trigger kept.
pub open spec fn after_rebuild(state: Debouncer) -> Debouncer {
    Debouncer { last_trigger: state.last_trigger, suppressed: false }
}

impl Debouncer {
    /// The idle state of a loop whose last rebuild was triggered at `now`.
    pub fn new(now: u64) -> (state: Debouncer)
        ensures
            state == (Debouncer { last_trigger: now, suppressed: false }),
    {
        Debouncer { last_trigger: now, suppressed: false }
    }

    /// Takes an event of kind `kind` that arrived at `now`, and says what
    /// the loop does about it.
    pub fn on_event(&mut self, kind: EventKind, now: u64) -> (action: WatchAction)
        ensures
            *final(self) == after_event(*old(self), kind, now),
            action == if triggers(*old(self), kind, now) {
                WatchAction::Rebuild
            } else {
                WatchAction::Ignore
            },
    {
        let change = match kind {
            EventKind::Create => true,
            EventKind::Modify => true,
            EventKind::Remove => true,
            EventKind::Other => false,
        };
        if change && !self.suppressed && now > self.last_trigger && now - self.last_trigger
            > DEBOUNCE_NANOS {
            self.last_trigger = now;
            self.suppressed = true;
            WatchAction::Rebuild
        } else {
            WatchAction::Ignore
        }
    }

    /// Takes note that the rebuild has finished.
    pub fn rebuild_finished(&mut self)
        ensures
            *final(self) == after_rebuild(*old(self)),
    {
        self.suppressed = false;
    }
}

/// Of two events less than the debounce time apart, at most one triggers a
/// rebuild, whatever the state before them and whether or not a rebuild
/// finished in between.
pub proof fn lemma_close_events_trigger_once(
    state: Debouncer,
    first: EventKind,
    first_at: u64,
    finished_between: bool,
    second: EventKind,
    second_at: u64,
)
    requires
        first_at <= second_at,
        second_at - first_at < DEBOUNCE_NANOS,
    ensures
        ({
            let met = after_event(state, first, first_at);
            let between = if finished_between {
                after_rebuild(met)
            } else {
                met
            };
            !(triggers(state, first, first_at) && triggers(between, second, second_at))
        }),
{
}

/// Two changes more than the debounce time apart each trigger a rebuild,
/// provided that the loop is idle when the first comes, that the first
/// comes more than the debounce time after the trigger before it, and that
/// its rebuild has finished when the second comes.
pub proof fn lemma_distant_events_trigger_twice(
    state: Debouncer,
    first: EventKind,
    first_at: u64,
    second: EventKind,
    second_at: u64,
)
    requires
        is_change(first),
        is_change(second),
        first_at <= second_at,
        second_at - first_at > DEBOUNCE_NANOS,
        !state.suppressed,
        elapsed(state.last_trigger, first_at) > DEBOUNCE_NANOS,
    ensures
        triggers(state, first, first_at),
        triggers(after_rebuild(after_event(state, first, first_at)), second, second_at),
{
}

} // verus!

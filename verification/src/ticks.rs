//! Change detection for a keyed resource: when it was added and last changed, relative to
//! the runs of the system that looks at it.

use bevy_ecs::change_detection::Tick;
use vstd::prelude::*;

verus! {

/// How many ticks back a change can still be told apart: `u32::MAX` less twice the
/// world's tick-check threshold, less one.
pub open spec fn max_change_age() -> int {
    u32::MAX - (2 * 518_400_000 - 1)
}

/// How many ticks `earlier` lies before `later`, counting around the wrap of `u32`.
pub open spec fn ticks_between(later: u32, earlier: u32) -> int {
    (later - earlier) % 0x1_0000_0000
}

/// An age, capped at the oldest age that is still told apart.
pub open spec fn clamp_age(age: int) -> int {
    if age < max_change_age() {
        age
    } else {
        max_change_age()
    }
}

/// `tick` lies after `last_run`, both seen from `this_run`.
pub open spec fn tick_is_newer(tick: u32, last_run: u32, this_run: u32) -> bool {
    clamp_age(ticks_between(this_run, last_run)) > clamp_age(ticks_between(this_run, tick))
}

/// `Tick::is_newer_than` of bevy_ecs on the ticks with these values: the tick is newer
/// exactly when, seen from `this_run` and with ages capped at the maximum change age, fewer
/// ticks have passed since it than since `last_run`.
#[verifier::external_body]
fn tick_is_newer_than(tick: u32, last_run: u32, this_run: u32) -> (res: bool)
    ensures
        res == tick_is_newer(tick, last_run, this_run),
{
    Tick::new(tick).is_newer_than(Tick::new(last_run), Tick::new(this_run))
}

/// The change ticks of one stored value, with the runs of the system that reads it.
#[derive(Clone, Copy, Debug, PartialEq, Eq, Structural)]
pub struct ChangeTicks {
    /// The tick at which the value was added.
    pub added: u32,
    /// The tick at which the value was last changed.
    pub changed: u32,
    /// The tick at which the reading system last ran.
    pub last_run: u32,
    /// The tick of the reading system's current run.
    pub this_run: u32,
}

impl ChangeTicks {
    /// The value was added since the system last ran.
    pub open spec fn spec_added_since_last_run(self) -> bool {
        tick_is_newer(self.added, self.last_run, self.this_run)
    }

    /// The value was changed since the system last ran.
    pub open spec fn spec_changed_since_last_run(self) -> bool {
        tick_is_newer(self.changed, self.last_run, self.this_run)
    }

    /// Whether the value was added since the system last ran.
    pub fn is_added(&self) -> (res: bool)
        ensures
            res == self.spec_added_since_last_run(),
            res == tick_is_newer(self.added, self.last_run, self.this_run),
    {
        self.is_added_after(self.last_run)
    }

    /// Whether the value was changed since the system last ran.
    pub fn is_changed(&self) -> (res: bool)
        ensures
            res == self.spec_changed_since_last_run(),
            res == tick_is_newer(self.changed, self.last_run, self.this_run),
    {
        self.is_changed_after(self.last_run)
    }

    /// Whether the value was added after tick `other`.
    pub fn is_added_after(&self, other: u32) -> (res: bool)
        ensures
            res == tick_is_newer(self.added, other, self.this_run),
    {
        tick_is_newer_than(self.added, other, self.this_run)
    }

    /// Whether the value was changed after tick `other`.
    pub fn is_changed_after(&self, other: u32) -> (res: bool)
        ensures
            res == tick_is_newer(self.changed, other, self.this_run),
    {
        tick_is_newer_than(self.changed, other, self.this_run)
    }

    /// The tick of the last change.
    pub fn last_changed(&self) -> (res: u32)
        ensures
            res == self.changed,
    {
        self.changed
    }

    /// The tick at which the value was added.
    pub fn added(&self) -> (res: u32)
        ensures
            res == self.added,
    {
        self.added
    }

    /// Marks the value as changed in the current run.
    pub fn set_changed(&mut self)
        ensures
            *final(self) == (ChangeTicks { changed: old(self).this_run, ..*old(self) }),
    {
        self.changed = self.this_run;
    }

    /// Marks the value as added, and so changed, in the current run.
    pub fn set_added(&mut self)
        ensures
            *final(self) == (ChangeTicks {
                added: old(self).this_run,
                changed: old(self).this_run,
                ..*old(self)
            }),
    {
        self.changed = self.this_run;
        self.added = self.this_run;
    }

    /// Sets the tick of the last change.
    pub fn set_last_changed(&mut self, last_changed: u32)
        ensures
            *final(self) == (ChangeTicks { changed: last_changed, ..*old(self) }),
    {
        self.changed = last_changed;
    }

    /// Sets the tick at which the value was added, which is also its last change.
    pub fn set_last_added(&mut self, last_added: u32)
        ensures
            *final(self) == (ChangeTicks { added: last_added, changed: last_added, ..*old(self) }),
    {
        self.added = last_added;
        self.changed = last_added;
    }
}

/// A change made in the current run is seen as a change since the last run, unless the
/// system's last run was at the very same tick.
pub proof fn law_change_in_this_run_is_detected(ticks: ChangeTicks)
    ensures
        (ChangeTicks { changed: ticks.this_run, ..ticks }).spec_changed_since_last_run() == (
        ticks.this_run != ticks.last_run),
{
    assert(ticks_between(ticks.this_run, ticks.this_run) == 0);
    if ticks.this_run >= ticks.last_run {
        assert(ticks_between(ticks.this_run, ticks.last_run) == ticks.this_run - ticks.last_run);
    } else {
        assert(ticks_between(ticks.this_run, ticks.last_run) == ticks.this_run - ticks.last_run
            + 0x1_0000_0000);
    }
}

/// Adding a value in the current run makes it both added and changed since the last run,
/// unless the system's last run was at the very same tick.
pub proof fn law_add_in_this_run_is_detected(ticks: ChangeTicks)
    ensures
        ({
            let t = ChangeTicks { added: ticks.this_run, changed: ticks.this_run, ..ticks };
            &&& t.spec_added_since_last_run() == (ticks.this_run != ticks.last_run)
            &&& t.spec_changed_since_last_run() == (ticks.this_run != ticks.last_run)
        }),
{
    law_change_in_this_run_is_detected(ticks);
}

/// Without a wrap of the tick counter, and with the last run no further back than the
/// maximum change age, a tick is newer than the last run exactly when it comes after it.
pub proof fn law_newer_means_after_last_run(tick: u32, last_run: u32, this_run: u32)
    requires
        last_run <= this_run,
        tick <= this_run,
        this_run - last_run <= max_change_age(),
    ensures
        tick_is_newer(tick, last_run, this_run) == (last_run < tick),
{
    assert(ticks_between(this_run, last_run) == this_run - last_run);
    assert(ticks_between(this_run, tick) == this_run - tick);
}

/// A value counts as added since the system's last run exactly when it was added after that
/// run, when the ticks do not wrap and the last run is within the maximum change age. What
/// happened to the value since it was added does not matter.
pub proof fn law_added_since_last_run(ticks: ChangeTicks)
    requires
        ticks.last_run <= ticks.this_run,
        ticks.added <= ticks.this_run,
        ticks.this_run - ticks.last_run <= max_change_age(),
    ensures
        ticks.spec_added_since_last_run() == (ticks.last_run < ticks.added),
        forall|changed: u32| #[trigger] (ChangeTicks { changed, ..ticks }).spec_added_since_last_run()
            == ticks.spec_added_since_last_run(),
{
    law_newer_means_after_last_run(ticks.added, ticks.last_run, ticks.this_run);
}

/// A value counts as changed since the system's last run exactly when its last change came
/// after that run, when the ticks do not wrap and the last run is within the maximum change
/// age; an insertion after the last run counts as a change. When it was added does not
/// matter.
pub proof fn law_changed_since_last_run(ticks: ChangeTicks)
    requires
        ticks.last_run <= ticks.this_run,
        ticks.changed <= ticks.this_run,
        ticks.this_run - ticks.last_run <= max_change_age(),
    ensures
        ticks.spec_changed_since_last_run() == (ticks.last_run < ticks.changed),
        forall|added: u32| #[trigger] (ChangeTicks { added, ..ticks }).spec_changed_since_last_run()
            == ticks.spec_changed_since_last_run(),
        (ChangeTicks { added: ticks.changed, ..ticks }).spec_changed_since_last_run() == (
        ticks.last_run < ticks.changed),
{
    law_newer_means_after_last_run(ticks.changed, ticks.last_run, ticks.this_run);
}

/// Nothing is newer than the last run when it is the current run: a tick can only be new
/// to a system that ran before.
pub proof fn law_nothing_newer_than_this_run(tick: u32, this_run: u32)
    ensures
        !tick_is_newer(tick, this_run, this_run),
{
    assert(ticks_between(this_run, this_run) == 0);
    if this_run >= tick {
        assert(ticks_between(this_run, tick) == this_run - tick);
    } else {
        assert(ticks_between(this_run, tick) == this_run - tick + 0x1_0000_0000);
    }
}

} // verus!

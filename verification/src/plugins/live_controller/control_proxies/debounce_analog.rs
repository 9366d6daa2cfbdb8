//! Debounces analog I/O so the physical input must cross the logical value
//! before taking effect.
//!
//! Useful with faders that are not motorized: if the user pushes the fader to
//! 100% and the submaster is then set to 50% in software, the fader must be
//! moved to 50% before further movement takes effect.
use vstd::prelude::*;

use std::cmp::Ordering;

use crate::plugins::live_controller::scalable_value::{ScalableValue, compared_as, order_of};

verus! {

/// Whether physical input is held back.
#[derive(Debug, Clone, Copy, PartialEq, Eq, Structural)]
pub enum DebounceAnalogLock {
    Unlocked,
    /// Locked until the physical value is >= the logical value
    LockedGte,
    /// Locked until the physical value is <= the logical value
    LockedLte,
}

/// The state of a debounced analog control.
#[derive(Debug, Clone, Copy)]
pub struct DebounceAnalogState {
    pub locked: DebounceAnalogLock,
    pub logical_state: ScalableValue,
    pub physical_state: ScalableValue,
}

/// `a >= b` for scalable values.
pub open spec fn at_least(a: ScalableValue, b: ScalableValue) -> bool {
    compared_as(a, b).0 >= compared_as(a, b).1
}

/// `a <= b` for scalable values.
pub open spec fn at_most(a: ScalableValue, b: ScalableValue) -> bool {
    compared_as(a, b).0 <= compared_as(a, b).1
}

/// Whether a physical value is passed on while the control is `locked`
/// against the logical value `logical`: always when unlocked, and when
/// locked once the value reaches the logical value from the side it is
/// locked on.
pub open spec fn passes(locked: DebounceAnalogLock, logical: ScalableValue, value: ScalableValue) -> bool {
    match locked {
        DebounceAnalogLock::Unlocked => true,
        DebounceAnalogLock::LockedGte => at_least(value, logical),
        DebounceAnalogLock::LockedLte => at_most(value, logical),
    }
}

/// The lock after the logical value is set to `logical` while the physical
/// control stands at `physical`: locked on the side the physical control has
/// to move towards, or unlocked if it is already there.
pub open spec fn lock_for(logical: ScalableValue, physical: ScalableValue) -> DebounceAnalogLock {
    match order_of(compared_as(logical, physical).0, compared_as(logical, physical).1) {
        Ordering::Less => DebounceAnalogLock::LockedLte,
        Ordering::Equal => DebounceAnalogLock::Unlocked,
        Ordering::Greater => DebounceAnalogLock::LockedGte,
    }
}

/// Which of the physical values `values`, received in turn, are passed on,
/// starting `locked` against the logical value `logical`.
pub open spec fn passed_run(locked: DebounceAnalogLock, logical: ScalableValue, values: Seq<ScalableValue>) -> Seq<
    bool,
>
    decreases values.len(),
{
    if values.len() == 0 {
        Seq::empty()
    } else {
        let forward = passes(locked, logical, values[0]);
        let next = if forward {
            DebounceAnalogLock::Unlocked
        } else {
            locked
        };
        seq![forward] + passed_run(next, logical, values.drop_first())
    }
}

/// A run of values from any lock: a value is passed on exactly when it or
/// an earlier one of the run would pass the lock.
proof fn lemma_passed_run(locked: DebounceAnalogLock, logical: ScalableValue, values: Seq<ScalableValue>)
    ensures
        passed_run(locked, logical, values).len() == values.len(),
        forall|i: int|
            0 <= i < values.len() ==> (#[trigger] passed_run(locked, logical, values)[i] <==> exists|j: int|
                0 <= j <= i && passes(locked, logical, #[trigger] values[j])),
    decreases values.len(),
{
    if values.len() > 0 {
        let forward = passes(locked, logical, values[0]);
        let next = if forward {
            DebounceAnalogLock::Unlocked
        } else {
            locked
        };
        let rest = values.drop_first();
        lemma_passed_run(next, logical, rest);
        let run = passed_run(locked, logical, values);
        assert(run == seq![forward] + passed_run(next, logical, rest));
        assert forall|i: int| 0 <= i < values.len() implies (#[trigger] run[i] <==> exists|j: int|
            0 <= j <= i && passes(locked, logical, #[trigger] values[j])) by {
            if forward {
                assert(passes(locked, logical, values[0]));
                if i > 0 {
                    assert(passes(next, logical, rest[0]));
                    assert(run[i] == passed_run(next, logical, rest)[i - 1]);
                }
            } else if i > 0 {
                assert(run[i] == passed_run(next, logical, rest)[i - 1]);
                if run[i] {
                    let j = choose|j: int| 0 <= j <= i - 1 && passes(next, logical, #[trigger] rest[j]);
                    assert(values[j + 1] == rest[j]);
                }
                if exists|j: int| 0 <= j <= i && passes(locked, logical, #[trigger] values[j]) {
                    let j = choose|j: int| 0 <= j <= i && passes(locked, logical, #[trigger] values[j]);
                    assert(j > 0);
                    assert(rest[j - 1] == values[j]);
                }
            }
        }
    }
}

/// Once the logical value is set, the physical values that follow are held
/// back until the first one that reaches the logical value from the side the
/// control stood on; that one and every later one are passed on. Where the
/// control already stood at the logical value, every value is passed on.
pub proof fn law_debounce_run(logical: ScalableValue, physical: ScalableValue, values: Seq<ScalableValue>)
    ensures
        passed_run(lock_for(logical, physical), logical, values).len() == values.len(),
        forall|i: int|
            0 <= i < values.len() ==> (#[trigger] passed_run(lock_for(logical, physical), logical, values)[i]
                <==> exists|j: int| 0 <= j <= i && passes(lock_for(logical, physical), logical, #[trigger] values[j])),
        lock_for(logical, physical) == DebounceAnalogLock::Unlocked ==> forall|i: int|
            0 <= i < values.len() ==> #[trigger] passed_run(lock_for(logical, physical), logical, values)[i],
{
    lemma_passed_run(lock_for(logical, physical), logical, values);
    if lock_for(logical, physical) == DebounceAnalogLock::Unlocked {
        assert forall|i: int| 0 <= i < values.len() implies #[trigger] passed_run(
            lock_for(logical, physical),
            logical,
            values,
        )[i] by {
            assert(passes(lock_for(logical, physical), logical, values[0]));
        }
    }
}

impl DebounceAnalogState {
    /// An unlocked control with both values at zero.
    pub fn new() -> (r: Self)
        ensures
            r.locked == DebounceAnalogLock::Unlocked,
            r.logical_state == ScalableValue::U8(0),
            r.physical_state == ScalableValue::U8(0),
    {
        DebounceAnalogState {
            locked: DebounceAnalogLock::Unlocked,
            logical_state: ScalableValue::U8(0),
            physical_state: ScalableValue::U8(0),
        }
    }

    /// Records a value from the physical control. Returns whether the value is
    /// passed on to the action: always when unlocked, and when locked only once
    /// the value crosses the logical value, which unlocks the control.
    pub fn receive_physical(&mut self, value: ScalableValue) -> (forward: bool)
        ensures
            final(self).physical_state == value,
            final(self).logical_state == old(self).logical_state,
            forward == passes(old(self).locked, old(self).logical_state, value),
            final(self).locked == if forward {
                DebounceAnalogLock::Unlocked
            } else {
                old(self).locked
            },
    {
        self.physical_state = value;
        match self.locked {
            DebounceAnalogLock::Unlocked => true,
            DebounceAnalogLock::LockedGte => {
                if value >= self.logical_state {
                    self.locked = DebounceAnalogLock::Unlocked;
                    true
                } else {
                    false
                }
            },
            DebounceAnalogLock::LockedLte => {
                if value <= self.logical_state {
                    self.locked = DebounceAnalogLock::Unlocked;
                    true
                } else {
                    false
                }
            },
        }
    }

    /// Records a value set in software. The control locks in the direction
    /// the physical control has to move to reach it, or unlocks if it is
    /// already there. Always succeeds.
    pub fn send_analog(&mut self, value: ScalableValue) -> (r: bool)
        ensures
            r,
            final(self).logical_state == value,
            final(self).physical_state == old(self).physical_state,
            final(self).locked == lock_for(value, old(self).physical_state),
    {
        self.logical_state = value;
        match value.cmp(&self.physical_state) {
            Ordering::Less => self.locked = DebounceAnalogLock::LockedLte,
            Ordering::Equal => self.locked = DebounceAnalogLock::Unlocked,
            Ordering::Greater => self.locked = DebounceAnalogLock::LockedGte,
        }
        true
    }
}

} // verus!

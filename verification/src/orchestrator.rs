//! The per-unit state machine and the aggregate verdict.
//!
//! Every unit of work moves `Pending -> Running -> {Completed, Failed}`;
//! cancellation sends a unit to `Failed(Cancelled)` from either live
//! state, and one unit's failure never touches its siblings. The run as
//! a whole succeeds exactly when every unit completed.

use vstd::prelude::*;

use crate::error::{Error, ErrorV};
use crate::unit::{StatusV, UnitStatus};

verus! {

/// Where one unit of work stands.
#[derive(Clone, Debug, PartialEq, Eq)]
pub enum UnitState {
    /// Enumerated but not started.
    Pending,
    /// Assigned to a worker.
    Running,
    /// Finished with every record routed and every shard finalized.
    Completed,
    /// Finished with the given error; siblings are unaffected.
    Failed(Error),
}

/// Mathematical model of a [`UnitState`].
pub enum StateV {
    Pending,
    Running,
    Completed,
    Failed(ErrorV),
}

impl View for UnitState {
    type V = StateV;

    open spec fn view(&self) -> StateV {
        match self {
            UnitState::Pending => StateV::Pending,
            UnitState::Running => StateV::Running,
            UnitState::Completed => StateV::Completed,
            UnitState::Failed(e) => StateV::Failed(e@),
        }
    }
}

/// What can happen to one unit of work.
#[derive(Clone, Debug, PartialEq, Eq)]
pub enum UnitEvent {
    /// A worker picks the unit up.
    Start,
    /// The worker reports how the unit ended.
    Finish(UnitStatus),
    /// The caller aborts the run: pending units are dropped without
    /// starting; a running unit finalizes its shard cleanly first.
    Cancel,
}

/// Mathematical model of a [`UnitEvent`].
pub enum EventV {
    Start,
    Finish(StatusV),
    Cancel,
}

impl View for UnitEvent {
    type V = EventV;

    open spec fn view(&self) -> EventV {
        match self {
            UnitEvent::Start => EventV::Start,
            UnitEvent::Finish(s) => EventV::Finish(s@),
            UnitEvent::Cancel => EventV::Cancel,
        }
    }
}

/// The allowed transitions; `None` is an illegal move (terminal states
/// accept no event, and only a running unit can finish).
pub open spec fn spec_step(s: StateV, ev: EventV) -> Option<StateV> {
    match s {
        StateV::Pending => match ev {
            EventV::Start => Option::Some(StateV::Running),
            EventV::Cancel => Option::Some(StateV::Failed(ErrorV::Cancelled)),
            EventV::Finish(_) => Option::None,
        },
        StateV::Running => match ev {
            EventV::Start => Option::None,
            EventV::Cancel => Option::Some(StateV::Failed(ErrorV::Cancelled)),
            EventV::Finish(st) => match st {
                StatusV::Completed => Option::Some(StateV::Completed),
                StatusV::Failed(e) => Option::Some(StateV::Failed(e)),
            },
        },
        StateV::Completed => Option::None,
        StateV::Failed(_) => Option::None,
    }
}

/// Apply one event to one unit's state.
pub fn step(s: UnitState, ev: UnitEvent) -> (res: Option<UnitState>)
    ensures
        match res {
            Option::Some(s2) => spec_step(s@, ev@) == Option::Some(s2@),
            Option::None => spec_step(s@, ev@) is None,
        },
{
    match s {
        UnitState::Pending => match ev {
            UnitEvent::Start => Option::Some(UnitState::Running),
            UnitEvent::Cancel => Option::Some(UnitState::Failed(Error::Cancelled)),
            UnitEvent::Finish(_) => Option::None,
        },
        UnitState::Running => match ev {
            UnitEvent::Start => Option::None,
            UnitEvent::Cancel => Option::Some(UnitState::Failed(Error::Cancelled)),
            UnitEvent::Finish(st) => match st {
                UnitStatus::Completed => Option::Some(UnitState::Completed),
                UnitStatus::Failed(e) => Option::Some(UnitState::Failed(e)),
            },
        },
        UnitState::Completed => Option::None,
        UnitState::Failed(_) => Option::None,
    }
}

/// Every unit completed.
pub open spec fn all_completed(ss: Seq<StatusV>) -> bool {
    forall|i: int| 0 <= i < ss.len() ==> (#[trigger] ss[i]) is Completed
}

/// The aggregate verdict of a run: success exactly when every unit of
/// work reached `Completed`.
pub fn aggregate_ok(results: &Vec<UnitStatus>) -> (ok: bool)
    ensures
        ok == all_completed(results@.map_values(|s: UnitStatus| s@)),
{
    let ghost sv = results@.map_values(|s: UnitStatus| s@);
    let n = results.len();
    let mut i: usize = 0;
    while i < n
        invariant
            i <= n,
            n == results@.len(),
            sv == results@.map_values(|s: UnitStatus| s@),
            forall|k: int| 0 <= k < i ==> (#[trigger] sv[k]) is Completed,
        decreases n - i,
    {
        match &results[i] {
            UnitStatus::Completed => {},
            UnitStatus::Failed(_) => {
                assert(!(sv[i as int] is Completed));
                return false;
            },
        }
        i = i + 1;
    }
    true
}

} // verus!

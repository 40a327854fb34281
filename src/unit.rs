use vstd::prelude::*;
use crate::repo::Committers;

verus! {

/// Where one unit of work (one branch of one repository) stands.
pub enum UnitState {
    Discovered,
    Cloning,
    Walking,
    Done(Committers),
    Failed,
}

/// What the outside world reports back to a unit.
pub enum UnitEvent {
    Start,
    Cloned,
    CloneFailed,
    Walked(Committers),
    WalkFailed,
}

/// What the runner of a unit is to do next.
#[derive(Debug, Clone, Copy, PartialEq, Eq)]
pub enum UnitAction {
    /// Make the working copy.
    Clone,
    /// Walk the history of the working copy.
    Walk,
    /// Remove the working copy's directory.
    RemoveCopy,
    /// Nothing is left to do.
    Nothing,
}

/// A working copy of the unit may exist on disk.
pub open spec fn holds_copy(s: UnitState) -> bool {
    s is Cloning || s is Walking
}

/// The unit has finished, for good or ill.
pub open spec fn is_terminal(s: UnitState) -> bool {
    s is Done || s is Failed
}

/// The lifecycle `Discovered -> Cloning -> Walking -> Done | Failed`; any
/// other pair leaves the state as it is.
pub open spec fn spec_step(s: UnitState, e: UnitEvent) -> (UnitState, UnitAction) {
    match (s, e) {
        (UnitState::Discovered, UnitEvent::Start) => (UnitState::Cloning, UnitAction::Clone),
        (UnitState::Cloning, UnitEvent::Cloned) => (UnitState::Walking, UnitAction::Walk),
        (UnitState::Cloning, UnitEvent::CloneFailed) => (UnitState::Failed, UnitAction::RemoveCopy),
        (UnitState::Walking, UnitEvent::Walked(d)) => (UnitState::Done(d), UnitAction::RemoveCopy),
        (UnitState::Walking, UnitEvent::WalkFailed) => (UnitState::Failed, UnitAction::RemoveCopy),
        (s, _) => (s, UnitAction::Nothing),
    }
}

/// Advances a unit by one event, and says what to do next.
pub fn step(s: UnitState, e: UnitEvent) -> (r: (UnitState, UnitAction))
    ensures
        r == spec_step(s, e),
{
    match (s, e) {
        (UnitState::Discovered, UnitEvent::Start) => (UnitState::Cloning, UnitAction::Clone),
        (UnitState::Cloning, UnitEvent::Cloned) => (UnitState::Walking, UnitAction::Walk),
        (UnitState::Cloning, UnitEvent::CloneFailed) => (UnitState::Failed, UnitAction::RemoveCopy),
        (UnitState::Walking, UnitEvent::Walked(d)) => (UnitState::Done(d), UnitAction::RemoveCopy),
        (UnitState::Walking, UnitEvent::WalkFailed) => (UnitState::Failed, UnitAction::RemoveCopy),
        (s, _) => (s, UnitAction::Nothing),
    }
}

/// Cleanup: a step that ends a unit's hold on its working copy asks for the
/// copy's removal, and only such a step does; a finished unit holds no copy
/// and stays as it is, so its copy is removed exactly once.
pub proof fn lemma_cleanup_on_finish(s: UnitState, e: UnitEvent)
    ensures
        holds_copy(s) && !holds_copy(spec_step(s, e).0) <==> spec_step(s, e).1 is RemoveCopy,
        spec_step(s, e).1 is RemoveCopy ==> is_terminal(spec_step(s, e).0),
        is_terminal(s) ==> spec_step(s, e) == (s, UnitAction::Nothing),
        is_terminal(spec_step(s, e).0) ==> !holds_copy(spec_step(s, e).0),
        holds_copy(spec_step(s, e).0) ==> holds_copy(s) || (s is Discovered && e is Start),
{
}

} // verus!

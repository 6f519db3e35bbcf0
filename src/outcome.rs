use vstd::prelude::*;

verus! {

/// Linux `EPERM`: the target may no longer be traced by us.
pub const EPERM: i32 = 1;

/// Linux `ESRCH`: the target process does not exist (any more).
pub const ESRCH: i32 = 3;

/// An operating-system error, as the raw `errno` value that came back.
#[derive(Clone, Copy, Debug, PartialEq, Eq, Structural)]
pub struct OsError {
    pub errno: i32,
}

/// What one tracing step amounted to.
#[derive(Clone, Copy, Debug, PartialEq, Eq, Structural)]
pub enum StepResult {
    Success,
    /// The target went away (or became unreachable) under our feet.
    TolerableRace,
    Fatal(OsError),
}

/// Errors that mean the target exited or was taken out of our reach.
pub open spec fn is_target_loss(e: OsError) -> bool {
    e.errno == EPERM || e.errno == ESRCH
}

impl OsError {
    pub fn is_target_loss(&self) -> (r: bool)
        ensures
            r == is_target_loss(*self),
    {
        self.errno == EPERM || self.errno == ESRCH
    }
}

/// Sorts the result of a tracing step into success, tolerated race or fatal error.
pub fn classify(r: Result<(), OsError>) -> (c: StepResult)
    ensures
        r is Ok ==> c == StepResult::Success,
        r matches Err(e) ==> (is_target_loss(e) ==> c == StepResult::TolerableRace),
        r matches Err(e) ==> (!is_target_loss(e) ==> c == StepResult::Fatal(e)),
{
    match r {
        Ok(()) => StepResult::Success,
        Err(e) => if e.is_target_loss() {
            StepResult::TolerableRace
        } else {
            StepResult::Fatal(e)
        },
    }
}

/// Turns a step that failed because the target vanished into a success;
/// every other result passes through unchanged.
pub fn ignore_proc_death(r: Result<(), OsError>) -> (res: Result<(), OsError>)
    ensures
        r matches Err(e) ==> (is_target_loss(e) ==> res is Ok),
        r matches Err(e) ==> (!is_target_loss(e) ==> res == r),
        r is Ok ==> res == r,
{
    match classify(r) {
        StepResult::TolerableRace => Ok(()),
        _ => r,
    }
}

} // verus!

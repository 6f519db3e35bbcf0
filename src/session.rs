use vstd::prelude::*;
use crate::outcome::{OsError, StepResult, classify, is_target_loss};
use crate::symbol::{ResolveError, parse_debugger_output, resolution};

verus! {

/// Linux `SIGSEGV`: what the target receives when the remote call returns
/// to the planted return address.
pub const SIGSEGV: i32 = 11;

/// Bytes below the stack pointer that the x86-64 System V ABI lets a
/// function use without moving the stack pointer (the red zone).
pub const RED_ZONE: u64 = 128;

/// Stack alignment the x86-64 System V ABI requires at a call.
pub const STACK_ALIGN: u64 = 16;

/// Smallest stack pointer below which a call frame can be laid out.
pub const MIN_STACK_POINTER: u64 = RED_ZONE + STACK_ALIGN;

/// Return address planted for the remote call: returning there faults,
/// which the tracer observes as a stop.
pub const RETURN_TRAP: u64 = 0;

/// `orig_rax` value that tells the kernel no system call is to be restarted.
pub const NO_SYSCALL: u64 = 0xffff_ffff_ffff_ffff;

/// The general-purpose register set of an x86-64 Linux process.
#[derive(Clone, Copy, Debug, PartialEq, Eq, Structural)]
pub struct Registers {
    pub r15: u64,
    pub r14: u64,
    pub r13: u64,
    pub r12: u64,
    pub rbp: u64,
    pub rbx: u64,
    pub r11: u64,
    pub r10: u64,
    pub r9: u64,
    pub r8: u64,
    pub rax: u64,
    pub rcx: u64,
    pub rdx: u64,
    pub rsi: u64,
    pub rdi: u64,
    pub orig_rax: u64,
    pub rip: u64,
    pub cs: u64,
    pub eflags: u64,
    pub rsp: u64,
    pub ss: u64,
    pub fs_base: u64,
    pub gs_base: u64,
    pub ds: u64,
    pub es: u64,
    pub fs: u64,
    pub gs: u64,
}

/// Why a session ended without invoking the function.
#[derive(Clone, Copy, Debug, PartialEq, Eq, Structural)]
pub enum Failure {
    /// An operating-system error other than the loss of the target.
    Os(OsError),
    /// The kernel or the driver reported something the current step does not expect.
    UnexpectedStatus,
    /// The target stopped during the call for another reason than the return trap.
    UnexpectedStop { signal: i32 },
    /// The stack pointer leaves no room for a call frame.
    StackTooLow { sp: u64 },
    /// The target faulted inside the called function.
    CalleeFault { ip: u64 },
}

/// How a session ended.
#[derive(Clone, Copy, Debug, PartialEq, Eq, Structural)]
pub enum Outcome {
    /// The function ran and returned `result`.
    Invoked { result: u64 },
    /// The target went away; a tolerated race, not an error.
    TargetGone,
    Failed(Failure),
}

impl Outcome {
    /// Whether the operation counts as successful (exit status zero).
    pub fn is_success(&self) -> (r: bool)
        ensures
            r == !(*self is Failed),
    {
        !matches!(self, Outcome::Failed(_))
    }
}

/// The state of a trace session.
#[derive(Clone, Copy, Debug, PartialEq, Eq, Structural)]
pub enum Phase {
    /// Not attached; the next step seizes the target.
    Detached,
    /// Attached; the next step interrupts the target.
    Seized,
    /// Interrupt sent; the next step waits for the stop.
    Interrupted,
    /// Stopped; the next step captures the registers.
    Stopped,
    /// Registers saved; the next step writes the return address at `frame`.
    PlantingReturn { saved: Registers, frame: u64 },
    /// The next step points the registers at the function.
    Redirecting { saved: Registers, frame: u64 },
    /// The next step lets the target run the function.
    Resuming { saved: Registers },
    /// The function runs; the next step waits for the return trap.
    Invoking { saved: Registers },
    /// Trapped; the next step reads where and with what the call ended.
    Returned { saved: Registers },
    /// The next step writes the saved registers back.
    Restoring { saved: Registers, outcome: Outcome },
    /// The next step releases the trace relationship.
    Detaching { outcome: Outcome },
    /// The session is over.
    Finished { outcome: Outcome },
}

/// What the driver reports back after carrying out an action.
#[derive(Clone, Copy, Debug, PartialEq, Eq, Structural)]
pub enum Event {
    /// The action succeeded and has nothing to report.
    Done,
    /// The action failed with an operating-system error.
    Failed(OsError),
    /// A wait found the target stopped by `signal`.
    Stopped { signal: i32 },
    /// A wait found that the target exited or was killed.
    Exited,
    /// A wait returned something that is neither a stop nor an exit.
    Unexpected,
    /// A register read returned this set.
    Regs(Registers),
}

/// What the driver is to do next.
#[derive(Clone, Copy, Debug, PartialEq, Eq, Structural)]
pub enum Action {
    Seize,
    Interrupt,
    WaitForStop,
    ReadRegisters,
    WriteWord { addr: u64, value: u64 },
    WriteRegisters(Registers),
    Resume,
    Detach,
    Finish(Outcome),
}

/// Where the call frame for the remote call starts: below the red zone,
/// aligned so that the stack is 16-byte aligned after the return address.
pub open spec fn frame_of(sp: u64) -> int {
    let below = sp - RED_ZONE;
    below - below % (STACK_ALIGN as int) - 8
}

/// The registers that make the target call `function(argument)` with the
/// stack at `frame`.
pub open spec fn call_registers(saved: Registers, frame: u64, function: u64, argument: u64) -> Registers {
    Registers { rip: function, rsp: frame, rdi: argument, rax: 0, orig_rax: NO_SYSCALL, ..saved }
}

/// The outcome that an operating-system error leads to.
pub open spec fn error_outcome(e: OsError) -> Outcome {
    if is_target_loss(e) {
        Outcome::TargetGone
    } else {
        Outcome::Failed(Failure::Os(e))
    }
}

/// An outcome already reached is kept, unless it is a success that a later
/// problem overrides.
pub open spec fn keep(prior: Outcome, later: Outcome) -> Outcome {
    if prior is Invoked {
        later
    } else {
        prior
    }
}

/// The registers that the session holds to write back, if any.
pub open spec fn saved_registers(p: Phase) -> Option<Registers> {
    match p {
        Phase::PlantingReturn { saved, .. } => Some(saved),
        Phase::Redirecting { saved, .. } => Some(saved),
        Phase::Resuming { saved } => Some(saved),
        Phase::Invoking { saved } => Some(saved),
        Phase::Returned { saved } => Some(saved),
        Phase::Restoring { saved, .. } => Some(saved),
        _ => None,
    }
}

/// Phases in which the target's registers may differ from the saved ones.
pub open spec fn registers_dirty(p: Phase) -> bool {
    p is Redirecting || p is Resuming || p is Invoking || p is Returned
}

/// Phases in which the trace relationship is held.
pub open spec fn attached(p: Phase) -> bool {
    !(p is Detached) && !(p is Finished)
}

/// Phases whose action is a wait.
pub open spec fn waiting(p: Phase) -> bool {
    p is Interrupted || p is Invoking
}

/// Where a session goes when `outcome` ends it early in phase `p`: registers
/// are restored if they may have changed, and the target is detached if it
/// was attached.
pub open spec fn unwind(p: Phase, outcome: Outcome) -> Phase {
    match p {
        Phase::Detached => Phase::Finished { outcome },
        Phase::Redirecting { saved, .. } => Phase::Restoring { saved, outcome },
        Phase::Resuming { saved } => Phase::Restoring { saved, outcome },
        Phase::Invoking { saved } => Phase::Restoring { saved, outcome },
        Phase::Returned { saved } => Phase::Restoring { saved, outcome },
        Phase::Restoring { outcome: prior, .. } => Phase::Detaching { outcome: keep(prior, outcome) },
        Phase::Detaching { outcome: prior } => Phase::Finished { outcome: keep(prior, outcome) },
        Phase::Finished { outcome: prior } => Phase::Finished { outcome: prior },
        _ => Phase::Detaching { outcome },
    }
}

/// The phase after the action of `p` was carried out and reported `e`.
pub open spec fn next(p: Phase, e: Event) -> Phase {
    let protocol = Outcome::Failed(Failure::UnexpectedStatus);
    if p is Finished {
        p
    } else if e is Failed {
        unwind(p, error_outcome(e->Failed_0))
    } else if e is Exited && waiting(p) {
        Phase::Finished { outcome: Outcome::TargetGone }
    } else {
        match (p, e) {
            (Phase::Detached, Event::Done) => Phase::Seized,
            (Phase::Seized, Event::Done) => Phase::Interrupted,
            (Phase::Interrupted, Event::Stopped { .. }) => Phase::Stopped,
            (Phase::Stopped, Event::Regs(r)) => if r.rsp >= MIN_STACK_POINTER {
                Phase::PlantingReturn { saved: r, frame: frame_of(r.rsp) as u64 }
            } else {
                Phase::Detaching { outcome: Outcome::Failed(Failure::StackTooLow { sp: r.rsp }) }
            },
            (Phase::PlantingReturn { saved, frame }, Event::Done) => Phase::Redirecting { saved, frame },
            (Phase::Redirecting { saved, .. }, Event::Done) => Phase::Resuming { saved },
            (Phase::Resuming { saved }, Event::Done) => Phase::Invoking { saved },
            (Phase::Invoking { saved }, Event::Stopped { signal }) => if signal == SIGSEGV {
                Phase::Returned { saved }
            } else {
                Phase::Restoring { saved, outcome: Outcome::Failed(Failure::UnexpectedStop { signal }) }
            },
            (Phase::Returned { saved }, Event::Regs(r)) => if r.rip == RETURN_TRAP {
                Phase::Restoring { saved, outcome: Outcome::Invoked { result: r.rax } }
            } else {
                Phase::Restoring { saved, outcome: Outcome::Failed(Failure::CalleeFault { ip: r.rip }) }
            },
            (Phase::Restoring { outcome, .. }, Event::Done) => Phase::Detaching { outcome },
            (Phase::Detaching { outcome }, Event::Done) => Phase::Finished { outcome },
            _ => unwind(p, protocol),
        }
    }
}

/// The action that phase `p` asks for, for a call of `function(argument)`.
pub open spec fn action_of(p: Phase, function: u64, argument: u64) -> Action {
    match p {
        Phase::Detached => Action::Seize,
        Phase::Seized => Action::Interrupt,
        Phase::Interrupted => Action::WaitForStop,
        Phase::Stopped => Action::ReadRegisters,
        Phase::PlantingReturn { frame, .. } => Action::WriteWord { addr: frame, value: RETURN_TRAP },
        Phase::Redirecting { saved, frame } => Action::WriteRegisters(call_registers(saved, frame, function, argument)),
        Phase::Resuming { .. } => Action::Resume,
        Phase::Invoking { .. } => Action::WaitForStop,
        Phase::Returned { .. } => Action::ReadRegisters,
        Phase::Restoring { saved, .. } => Action::WriteRegisters(saved),
        Phase::Detaching { .. } => Action::Detach,
        Phase::Finished { outcome } => Action::Finish(outcome),
    }
}

/// A trace session on one target, for one call of `function(argument)`.
/// The session decides; a driver carries out each action it asks for and
/// reports back what happened.
#[derive(Clone, Copy, Debug, PartialEq, Eq, Structural)]
pub struct Session {
    pub pid: i32,
    pub function: u64,
    pub argument: u64,
    pub phase: Phase,
}

fn frame_for(sp: u64) -> (r: u64)
    requires
        sp >= MIN_STACK_POINTER,
    ensures
        r == frame_of(sp),
{
    let below: u64 = sp - RED_ZONE;
    below - below % STACK_ALIGN - 8
}

fn call_registers_for(saved: Registers, frame: u64, function: u64, argument: u64) -> (r: Registers)
    ensures
        r == call_registers(saved, frame, function, argument),
{
    Registers { rip: function, rsp: frame, rdi: argument, rax: 0, orig_rax: NO_SYSCALL, ..saved }
}

fn error_outcome_of(e: OsError) -> (r: Outcome)
    ensures
        r == error_outcome(e),
{
    match classify(Err(e)) {
        StepResult::TolerableRace => Outcome::TargetGone,
        _ => Outcome::Failed(Failure::Os(e)),
    }
}

fn keep_outcome(prior: Outcome, later: Outcome) -> (r: Outcome)
    ensures
        r == keep(prior, later),
{
    match prior {
        Outcome::Invoked { .. } => later,
        _ => prior,
    }
}

fn unwind_from(p: Phase, outcome: Outcome) -> (r: Phase)
    ensures
        r == unwind(p, outcome),
{
    match p {
        Phase::Detached => Phase::Finished { outcome },
        Phase::Redirecting { saved, .. } => Phase::Restoring { saved, outcome },
        Phase::Resuming { saved } => Phase::Restoring { saved, outcome },
        Phase::Invoking { saved } => Phase::Restoring { saved, outcome },
        Phase::Returned { saved } => Phase::Restoring { saved, outcome },
        Phase::Restoring { outcome: prior, .. } => Phase::Detaching { outcome: keep_outcome(prior, outcome) },
        Phase::Detaching { outcome: prior } => Phase::Finished { outcome: keep_outcome(prior, outcome) },
        Phase::Finished { outcome: prior } => Phase::Finished { outcome: prior },
        _ => Phase::Detaching { outcome },
    }
}

fn next_phase(p: Phase, e: Event) -> (r: Phase)
    ensures
        r == next(p, e),
{
    let protocol = Outcome::Failed(Failure::UnexpectedStatus);
    if let Phase::Finished { .. } = p {
        return p;
    }
    match e {
        Event::Failed(err) => {
            return unwind_from(p, error_outcome_of(err));
        },
        Event::Exited => {
            if let Phase::Interrupted = p {
                return Phase::Finished { outcome: Outcome::TargetGone };
            }
            if let Phase::Invoking { .. } = p {
                return Phase::Finished { outcome: Outcome::TargetGone };
            }
        },
        _ => {},
    }
    match (p, e) {
        (Phase::Detached, Event::Done) => Phase::Seized,
        (Phase::Seized, Event::Done) => Phase::Interrupted,
        (Phase::Interrupted, Event::Stopped { .. }) => Phase::Stopped,
        (Phase::Stopped, Event::Regs(r)) => if r.rsp >= MIN_STACK_POINTER {
            Phase::PlantingReturn { saved: r, frame: frame_for(r.rsp) }
        } else {
            Phase::Detaching { outcome: Outcome::Failed(Failure::StackTooLow { sp: r.rsp }) }
        },
        (Phase::PlantingReturn { saved, frame }, Event::Done) => Phase::Redirecting { saved, frame },
        (Phase::Redirecting { saved, .. }, Event::Done) => Phase::Resuming { saved },
        (Phase::Resuming { saved }, Event::Done) => Phase::Invoking { saved },
        (Phase::Invoking { saved }, Event::Stopped { signal }) => if signal == SIGSEGV {
            Phase::Returned { saved }
        } else {
            Phase::Restoring { saved, outcome: Outcome::Failed(Failure::UnexpectedStop { signal }) }
        },
        (Phase::Returned { saved }, Event::Regs(r)) => if r.rip == RETURN_TRAP {
            Phase::Restoring { saved, outcome: Outcome::Invoked { result: r.rax } }
        } else {
            Phase::Restoring { saved, outcome: Outcome::Failed(Failure::CalleeFault { ip: r.rip }) }
        },
        (Phase::Restoring { outcome, .. }, Event::Done) => Phase::Detaching { outcome },
        (Phase::Detaching { outcome }, Event::Done) => Phase::Finished { outcome },
        _ => unwind_from(p, protocol),
    }
}

impl Session {
    /// A session that has not touched the target yet.
    pub fn new(pid: i32, function: u64, argument: u64) -> (s: Session)
        ensures
            s == (Session { pid, function, argument, phase: Phase::Detached }),
    {
        Session { pid, function, argument, phase: Phase::Detached }
    }

    /// A session that calls, in process `pid`, the function whose address
    /// the debugger output reports; no session, and so no attach, where the
    /// output reports none.
    pub fn for_resolution(pid: i32, output: &[u8], argument: u64) -> (r: Result<Session, ResolveError>)
        ensures
            resolution(output@) matches Ok(function) ==> r == Ok::<Session, ResolveError>(
                Session { pid, function, argument, phase: Phase::Detached },
            ),
            resolution(output@) matches Err(e) ==> r == Err::<Session, ResolveError>(e),
    {
        match parse_debugger_output(output) {
            Ok(function) => Ok(Session::new(pid, function, argument)),
            Err(e) => Err(e),
        }
    }

    /// What the driver is to do next.
    pub fn action(&self) -> (a: Action)
        ensures
            a == action_of(self.phase, self.function, self.argument),
    {
        match self.phase {
            Phase::Detached => Action::Seize,
            Phase::Seized => Action::Interrupt,
            Phase::Interrupted => Action::WaitForStop,
            Phase::Stopped => Action::ReadRegisters,
            Phase::PlantingReturn { frame, .. } => Action::WriteWord { addr: frame, value: RETURN_TRAP },
            Phase::Redirecting { saved, frame } => Action::WriteRegisters(
                call_registers_for(saved, frame, self.function, self.argument),
            ),
            Phase::Resuming { .. } => Action::Resume,
            Phase::Invoking { .. } => Action::WaitForStop,
            Phase::Returned { .. } => Action::ReadRegisters,
            Phase::Restoring { saved, .. } => Action::WriteRegisters(saved),
            Phase::Detaching { .. } => Action::Detach,
            Phase::Finished { outcome } => Action::Finish(outcome),
        }
    }

    /// Records what carrying out the current action reported.
    pub fn advance(&mut self, e: Event)
        ensures
            final(self).phase == next(old(self).phase, e),
            final(self).pid == old(self).pid,
            final(self).function == old(self).function,
            final(self).argument == old(self).argument,
    {
        self.phase = next_phase(self.phase, e);
    }

    /// How the session ended, once it has.
    pub fn outcome(&self) -> (r: Option<Outcome>)
        ensures
            self.phase matches Phase::Finished { outcome } ==> r == Some(outcome),
            !(self.phase is Finished) ==> r is None,
    {
        match self.phase {
            Phase::Finished { outcome } => Some(outcome),
            _ => None,
        }
    }
}

} // verus!

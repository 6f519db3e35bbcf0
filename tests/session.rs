use reclaim_memory::outcome::{OsError, EPERM, ESRCH};
use reclaim_memory::session::{
    Action, Event, Failure, Outcome, Phase, Registers, Session, NO_SYSCALL, RETURN_TRAP, SIGSEGV,
};
use reclaim_memory::symbol::ResolveError;

fn regs(seed: u64, rsp: u64) -> Registers {
    Registers {
        r15: seed + 1,
        r14: seed + 2,
        r13: seed + 3,
        r12: seed + 4,
        rbp: seed + 5,
        rbx: seed + 6,
        r11: seed + 7,
        r10: seed + 8,
        r9: seed + 9,
        r8: seed + 10,
        rax: seed + 11,
        rcx: seed + 12,
        rdx: seed + 13,
        rsi: seed + 14,
        rdi: seed + 15,
        orig_rax: seed + 16,
        rip: seed + 17,
        cs: 0x33,
        eflags: 0x246,
        rsp,
        ss: 0x2b,
        fs_base: seed + 18,
        gs_base: 0,
        ds: 0,
        es: 0,
        fs: 0,
        gs: 0,
    }
}

const OUTPUT: &[u8] = b"[Thread debugging using libthread_db enabled]\n$1 = {<text variable, no debug info>} 0x7f3a12345670 <malloc_trim>\n";

/// Drives `session` with `events`, returning the actions it asked for.
fn drive(session: &mut Session, events: &[Event]) -> Vec<Action> {
    let mut actions = Vec::new();
    for e in events {
        actions.push(session.action());
        session.advance(*e);
    }
    actions.push(session.action());
    actions
}

#[test]
fn missing_target_is_a_tolerated_race() {
    let mut s = Session::new(999_999, 0x1000, 0);
    assert_eq!(s.action(), Action::Seize);
    s.advance(Event::Failed(OsError { errno: ESRCH }));
    assert_eq!(s.phase, Phase::Finished { outcome: Outcome::TargetGone });
    assert_eq!(s.outcome(), Some(Outcome::TargetGone));
    assert!(Outcome::TargetGone.is_success());
    assert_eq!(s.action(), Action::Finish(Outcome::TargetGone));
}

#[test]
fn full_invocation_restores_registers() {
    let mut s = Session::for_resolution(4242, OUTPUT, 0).unwrap();
    assert_eq!(s.function, 0x7f3a12345670);
    let r0 = regs(100, 0x7ffd_0000_1234);
    let mut after = regs(900, 0);
    after.rip = RETURN_TRAP;
    after.rax = 1;
    let actions = drive(
        &mut s,
        &[
            Event::Done,
            Event::Done,
            Event::Stopped { signal: 5 },
            Event::Regs(r0),
            Event::Done,
            Event::Done,
            Event::Done,
            Event::Stopped { signal: SIGSEGV },
            Event::Regs(after),
            Event::Done,
            Event::Done,
        ],
    );
    // below the red zone, 16-byte aligned, minus the return address slot
    let frame = ((0x7ffd_0000_1234u64 - 128) & !15) - 8;
    assert_eq!(frame % 16, 8);
    let mut call = r0;
    call.rip = 0x7f3a12345670;
    call.rsp = frame;
    call.rdi = 0;
    call.rax = 0;
    call.orig_rax = NO_SYSCALL;
    assert_eq!(
        actions,
        vec![
            Action::Seize,
            Action::Interrupt,
            Action::WaitForStop,
            Action::ReadRegisters,
            Action::WriteWord { addr: frame, value: RETURN_TRAP },
            Action::WriteRegisters(call),
            Action::Resume,
            Action::WaitForStop,
            Action::ReadRegisters,
            Action::WriteRegisters(r0),
            Action::Detach,
            Action::Finish(Outcome::Invoked { result: 1 }),
        ]
    );
}

#[test]
fn target_exiting_while_waiting_needs_no_detach() {
    let mut s = Session::new(7, 0x1000, 0);
    let actions = drive(&mut s, &[Event::Done, Event::Done, Event::Exited]);
    assert_eq!(actions.last(), Some(&Action::Finish(Outcome::TargetGone)));
    assert!(!actions.contains(&Action::Detach));
}

#[test]
fn race_after_seize_still_detaches() {
    let mut s = Session::new(7, 0x1000, 0);
    let actions = drive(&mut s, &[Event::Done, Event::Failed(OsError { errno: EPERM }), Event::Done]);
    assert_eq!(
        actions,
        vec![Action::Seize, Action::Interrupt, Action::Detach, Action::Finish(Outcome::TargetGone)]
    );
}

#[test]
fn fatal_error_detaches_then_reports() {
    let mut s = Session::new(7, 0x1000, 0);
    let einval = OsError { errno: 22 };
    let actions = drive(
        &mut s,
        &[Event::Done, Event::Done, Event::Stopped { signal: 5 }, Event::Failed(einval), Event::Done],
    );
    let failed = Outcome::Failed(Failure::Os(einval));
    assert_eq!(actions[4], Action::Detach);
    assert_eq!(actions[5], Action::Finish(failed));
    assert!(!failed.is_success());
}

#[test]
fn fatal_error_during_call_restores_first() {
    let mut s = Session::new(7, 0x1000, 3);
    let r0 = regs(1, 0x10_0000);
    let einval = OsError { errno: 22 };
    let actions = drive(
        &mut s,
        &[
            Event::Done,
            Event::Done,
            Event::Stopped { signal: 5 },
            Event::Regs(r0),
            Event::Done,
            Event::Done,
            Event::Failed(einval),
            Event::Done,
            Event::Done,
        ],
    );
    assert_eq!(actions[6], Action::Resume);
    assert_eq!(actions[7], Action::WriteRegisters(r0));
    assert_eq!(actions[8], Action::Detach);
    assert_eq!(actions[9], Action::Finish(Outcome::Failed(Failure::Os(einval))));
}

#[test]
fn unexpected_stop_during_call_is_fatal() {
    let mut s = Session::new(7, 0x1000, 0);
    let r0 = regs(1, 0x10_0000);
    let actions = drive(
        &mut s,
        &[
            Event::Done,
            Event::Done,
            Event::Stopped { signal: 5 },
            Event::Regs(r0),
            Event::Done,
            Event::Done,
            Event::Done,
            Event::Stopped { signal: 17 },
            Event::Done,
            Event::Done,
        ],
    );
    assert_eq!(actions[8], Action::WriteRegisters(r0));
    assert_eq!(actions[10], Action::Finish(Outcome::Failed(Failure::UnexpectedStop { signal: 17 })));
}

#[test]
fn fault_inside_callee_is_reported() {
    let mut s = Session::new(7, 0x1000, 0);
    let r0 = regs(1, 0x10_0000);
    let mut faulted = regs(5, 0x10_0000);
    faulted.rip = 0xdead;
    let actions = drive(
        &mut s,
        &[
            Event::Done,
            Event::Done,
            Event::Stopped { signal: 5 },
            Event::Regs(r0),
            Event::Done,
            Event::Done,
            Event::Done,
            Event::Stopped { signal: SIGSEGV },
            Event::Regs(faulted),
            Event::Done,
            Event::Done,
        ],
    );
    assert_eq!(actions[9], Action::WriteRegisters(r0));
    assert_eq!(actions[11], Action::Finish(Outcome::Failed(Failure::CalleeFault { ip: 0xdead })));
}

#[test]
fn low_stack_pointer_is_refused_before_any_write() {
    let mut s = Session::new(7, 0x1000, 0);
    let r0 = regs(1, 100);
    let actions = drive(&mut s, &[Event::Done, Event::Done, Event::Stopped { signal: 5 }, Event::Regs(r0), Event::Done]);
    assert_eq!(actions[4], Action::Detach);
    assert_eq!(actions[5], Action::Finish(Outcome::Failed(Failure::StackTooLow { sp: 100 })));
}

#[test]
fn unexpected_wait_status_is_a_protocol_failure() {
    let mut s = Session::new(7, 0x1000, 0);
    let actions = drive(&mut s, &[Event::Done, Event::Done, Event::Unexpected, Event::Done]);
    assert_eq!(actions[3], Action::Detach);
    assert_eq!(actions[4], Action::Finish(Outcome::Failed(Failure::UnexpectedStatus)));
}

#[test]
fn malformed_debugger_output_gives_no_session() {
    let r = Session::for_resolution(7, b"No symbol table is loaded.\n", 0);
    assert_eq!(r.unwrap_err(), ResolveError::NoAddressLine);
}

#[test]
fn finished_session_stays_finished() {
    let mut s = Session::new(7, 0x1000, 0);
    s.advance(Event::Failed(OsError { errno: ESRCH }));
    s.advance(Event::Done);
    assert_eq!(s.outcome(), Some(Outcome::TargetGone));
}

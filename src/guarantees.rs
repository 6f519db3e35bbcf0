use vstd::prelude::*;
use crate::outcome::{OsError, ESRCH};
use crate::symbol::{
    NEWLINE, SPACE, ResolveError, address_field, address_prefix, first_space, hex_value, is_hex_digit,
    is_hex_number, resolution, resolution_from,
};
use crate::session::{
    Action, Event, Outcome, Phase, Registers, Session, action_of, attached, next, registers_dirty,
    saved_registers, waiting,
};

verus! {

/// The phases a session passes through when its actions report `events`,
/// starting from `p`: one more phase than there are events.
pub open spec fn trace(p: Phase, events: Seq<Event>) -> Seq<Phase>
    decreases events.len(),
{
    if events.len() == 0 {
        seq![p]
    } else {
        seq![p] + trace(next(p, events[0]), events.drop_first())
    }
}

/// Each phase of a trace is the previous one advanced by the matching event.
pub proof fn lemma_trace_steps(p: Phase, events: Seq<Event>)
    ensures
        trace(p, events).len() == events.len() + 1,
        trace(p, events)[0] == p,
        forall|i: int|
            0 <= i < events.len() ==> #[trigger] trace(p, events)[i + 1] == next(
                trace(p, events)[i],
                events[i],
            ),
    decreases events.len(),
{
    if events.len() > 0 {
        let q = next(p, events[0]);
        let rest = events.drop_first();
        lemma_trace_steps(q, rest);
        assert forall|i: int| 0 <= i < events.len() implies #[trigger] trace(p, events)[i + 1] == next(
            trace(p, events)[i],
            events[i],
        ) by {
            if i > 0 {
                assert(trace(p, events)[i + 1] == trace(q, rest)[i]);
                assert(trace(p, events)[i] == trace(q, rest)[i - 1]);
                assert(events[i] == rest[i - 1]);
            }
        }
    }
}

/// Seizing a process that does not exist ends the session at once as a
/// tolerated race: no further action, and no failure.
pub proof fn lemma_missing_target_is_tolerated(pid: i32, function: u64, argument: u64, e: OsError)
    requires
        e.errno == ESRCH,
    ensures
        ({
            let s = Session { pid, function, argument, phase: Phase::Detached };
            let after = next(s.phase, Event::Failed(e));
            &&& action_of(s.phase, function, argument) == Action::Seize
            &&& after == (Phase::Finished { outcome: Outcome::TargetGone })
            &&& action_of(after, function, argument) == Action::Finish(Outcome::TargetGone)
            &&& !(Outcome::TargetGone is Failed)
        }),
{
}

/// A step from an attached phase either stays attached, or is the detach
/// itself, or is the target's exit reported by a wait.
pub proof fn lemma_attached_step(p: Phase, e: Event)
    requires
        attached(p),
    ensures
        attached(next(p, e)) || p is Detaching || (e is Exited && waiting(p)),
{
}

/// Once the target has been seized, a session does not finish before it
/// has asked for the detach, unless a wait found that the target exited.
pub proof fn lemma_detach_before_finish(p: Phase, events: Seq<Event>, function: u64, argument: u64)
    requires
        attached(p),
        trace(p, events).last() is Finished,
    ensures
        exists|i: int|
            0 <= i < events.len() && {
                ||| (trace(p, events)[i] is Detaching && action_of(trace(p, events)[i], function, argument) == Action::Detach)
                ||| (events[i] is Exited && waiting(trace(p, events)[i]))
            },
{
    lemma_trace_steps(p, events);
    let t = trace(p, events);
    if !exists|i: int|
        0 <= i < events.len() && {
            ||| (t[i] is Detaching && action_of(t[i], function, argument) == Action::Detach)
            ||| (events[i] is Exited && waiting(t[i]))
        } {
        lemma_stays_attached(p, events, events.len() as int);
        assert(t.last() == t[events.len() as int]);
    }
}

proof fn lemma_stays_attached(p: Phase, events: Seq<Event>, n: int)
    requires
        attached(p),
        0 <= n <= events.len(),
        trace(p, events).len() == events.len() + 1,
        trace(p, events)[0] == p,
        forall|i: int|
            0 <= i < events.len() ==> #[trigger] trace(p, events)[i + 1] == next(
                trace(p, events)[i],
                events[i],
            ),
        forall|i: int|
            0 <= i < n ==> !(trace(p, events)[i] is Detaching) && !(events[i] is Exited && waiting(
                trace(p, events)[i],
            )),
    ensures
        attached(trace(p, events)[n]),
    decreases n,
{
    if n > 0 {
        lemma_stays_attached(p, events, n - 1);
        lemma_attached_step(trace(p, events)[n - 1], events[n - 1]);
        assert(trace(p, events)[(n - 1) + 1] == next(trace(p, events)[n - 1], events[n - 1]));
    }
}

/// Holds of every phase after the registers `r0` were captured: the
/// session never goes back before the capture, and any registers it holds
/// to write back are `r0`.
pub open spec fn after_capture(p: Phase, r0: Registers) -> bool {
    &&& !(p is Detached || p is Seized || p is Interrupted || p is Stopped)
    &&& saved_registers(p) is Some ==> saved_registers(p) == Some(r0)
}

proof fn lemma_capture_step(p: Phase, e: Event, r0: Registers)
    requires
        after_capture(p, r0),
    ensures
        after_capture(next(p, e), r0),
        registers_dirty(p) && !(e is Exited && waiting(p)) ==> registers_dirty(next(p, e))
            || next(p, e) is Restoring,
{
}

proof fn lemma_after_capture_holds(r0: Registers, events: Seq<Event>, n: int)
    requires
        events.len() > 0,
        events[0] == Event::Regs(r0),
        1 <= n <= events.len(),
    ensures
        after_capture(trace(Phase::Stopped, events)[n], r0),
    decreases n,
{
    lemma_trace_steps(Phase::Stopped, events);
    let t = trace(Phase::Stopped, events);
    if n == 1 {
        assert(t[0int + 1] == next(t[0], events[0]));
    } else {
        lemma_after_capture_holds(r0, events, n - 1);
        lemma_capture_step(t[n - 1], events[n - 1], r0);
        assert(t[(n - 1) + 1] == next(t[n - 1], events[n - 1]));
    }
}

/// Once a stopped target's registers `r0` are captured, every register set
/// the session holds to write back is `r0`, and each restore writes exactly
/// `r0` back.
pub proof fn lemma_saved_registers_kept(r0: Registers, events: Seq<Event>, function: u64, argument: u64)
    requires
        events.len() > 0,
        events[0] == Event::Regs(r0),
    ensures
        forall|i: int|
            0 <= i < events.len() + 1 && (#[trigger] saved_registers(trace(Phase::Stopped, events)[i])) is Some
                ==> saved_registers(trace(Phase::Stopped, events)[i]) == Some(r0),
        forall|i: int|
            0 <= i < events.len() + 1 && (#[trigger] trace(Phase::Stopped, events)[i]) is Restoring
                ==> action_of(trace(Phase::Stopped, events)[i], function, argument) == Action::WriteRegisters(r0),
{
    lemma_trace_steps(Phase::Stopped, events);
    let t = trace(Phase::Stopped, events);
    assert forall|i: int| 0 <= i < events.len() + 1 implies after_capture(t[i], r0) || i == 0 by {
        if i >= 1 {
            lemma_after_capture_holds(r0, events, i);
        }
    }
}

/// Once a stopped target's registers `r0` are captured and the target was
/// pointed elsewhere (phase `k`), the session does not finish before it has
/// written `r0` back, unless a wait found that the target exited.
pub proof fn lemma_restore_before_finish(
    r0: Registers,
    events: Seq<Event>,
    k: int,
    function: u64,
    argument: u64,
)
    requires
        events.len() > 0,
        events[0] == Event::Regs(r0),
        0 <= k <= events.len(),
        registers_dirty(trace(Phase::Stopped, events)[k]),
        trace(Phase::Stopped, events).last() is Finished,
    ensures
        exists|i: int|
            k <= i < events.len() && {
                ||| action_of(trace(Phase::Stopped, events)[i], function, argument) == Action::WriteRegisters(r0)
                    && trace(Phase::Stopped, events)[i] is Restoring
                ||| (events[i] is Exited && waiting(trace(Phase::Stopped, events)[i]))
            },
{
    lemma_trace_steps(Phase::Stopped, events);
    lemma_saved_registers_kept(r0, events, function, argument);
    let t = trace(Phase::Stopped, events);
    if !exists|i: int|
        k <= i < events.len() && {
            ||| t[i] is Restoring
            ||| (events[i] is Exited && waiting(t[i]))
        } {
        assert(t.last() == t[events.len() as int]);
        lemma_stays_dirty(r0, events, k, events.len() as int);
    } else {
        let i = choose|i: int|
            k <= i < events.len() && {
                ||| t[i] is Restoring
                ||| (events[i] is Exited && waiting(t[i]))
            };
        assert(saved_registers(t[i]) is Some ==> saved_registers(t[i]) == Some(r0));
    }
}

proof fn lemma_stays_dirty(r0: Registers, events: Seq<Event>, k: int, n: int)
    requires
        events.len() > 0,
        events[0] == Event::Regs(r0),
        0 <= k <= n <= events.len(),
        registers_dirty(trace(Phase::Stopped, events)[k]),
        forall|i: int| k <= i <= n ==> !(#[trigger] trace(Phase::Stopped, events)[i] is Restoring),
        forall|i: int|
            k <= i < n ==> !(#[trigger] events[i] is Exited && waiting(trace(Phase::Stopped, events)[i])),
    ensures
        registers_dirty(trace(Phase::Stopped, events)[n]),
    decreases n - k,
{
    if n > k {
        lemma_trace_steps(Phase::Stopped, events);
        let t = trace(Phase::Stopped, events);
        lemma_stays_dirty(r0, events, k, n - 1);
        assert(!(t[n - 1] is Restoring) && !(events[n - 1] is Exited && waiting(t[n - 1])));
        if n - 1 >= 1 {
            lemma_after_capture_holds(r0, events, n - 1);
            lemma_capture_step(t[n - 1], events[n - 1], r0);
        }
        assert(t[(n - 1) + 1] == next(t[n - 1], events[n - 1]));
    }
}

/// The debugger output whose first line reports the digits `d`, followed
/// by a space and anything at all.
pub open spec fn reporting_output(d: Seq<u8>, tail: Seq<u8>) -> Seq<u8> {
    address_prefix() + d + seq![SPACE] + tail
}

proof fn lemma_prefix_has_no_newline()
    ensures
        forall|i: int| 0 <= i < address_prefix().len() ==> address_prefix()[i] != NEWLINE,
{
    assert(address_prefix().len() == 40);
}

proof fn lemma_space_after_digits(rest: Seq<u8>, d: Seq<u8>, j: nat)
    requires
        is_hex_number(d),
        rest.len() > d.len(),
        rest.take(d.len() as int) == d,
        rest[d.len() as int] == SPACE,
        j <= d.len(),
    ensures
        first_space(rest, j) == d.len(),
    decreases d.len() - j,
{
    if j < d.len() {
        assert(rest[j as int] == d[j as int]);
        assert(is_hex_digit(d[j as int]));
        lemma_space_after_digits(rest, d, j + 1);
    }
}

proof fn lemma_reporting_line(d: Seq<u8>, tail: Seq<u8>, end: int)
    requires
        is_hex_number(d),
        address_prefix().len() + d.len() + 1 <= end <= reporting_output(d, tail).len(),
    ensures
        address_field(reporting_output(d, tail).subrange(0, end)) == Some(d),
{
    let s = reporting_output(d, tail);
    let p = address_prefix();
    let line = s.subrange(0, end);
    assert(line.take(p.len() as int) =~= p);
    let rest = line.skip(p.len() as int);
    assert(rest.take(d.len() as int) =~= d);
    assert(rest[d.len() as int] == SPACE);
    lemma_space_after_digits(rest, d, 0);
}

proof fn lemma_reporting_scan(d: Seq<u8>, tail: Seq<u8>, i: nat)
    requires
        is_hex_number(d),
        i <= reporting_output(d, tail).len(),
    ensures
        resolution_from(reporting_output(d, tail), 0, i) == Ok::<u64, ResolveError>(hex_value(d) as u64),
    decreases reporting_output(d, tail).len() - i,
{
    let s = reporting_output(d, tail);
    let first_line = address_prefix().len() + d.len() + 1;
    if i >= s.len() {
        lemma_reporting_line(d, tail, s.len() as int);
    } else {
        if i < first_line {
            lemma_prefix_has_no_newline();
            if i < address_prefix().len() {
                assert(s[i as int] == address_prefix()[i as int]);
            } else if i < address_prefix().len() + d.len() {
                assert(s[i as int] == d[i - address_prefix().len()]);
                assert(is_hex_digit(d[i - address_prefix().len()]));
            } else {
                assert(s[i as int] == SPACE);
            }
            lemma_reporting_scan(d, tail, i + 1);
        } else if s[i as int] == NEWLINE {
            lemma_reporting_line(d, tail, i as int);
        } else {
            lemma_reporting_scan(d, tail, i + 1);
        }
    }
}

/// A debugger output whose first line reports the value of the symbol as
/// valid hexadecimal digits resolves to exactly that number, whatever
/// follows the space after the digits.
pub proof fn lemma_reported_address_resolves(d: Seq<u8>, tail: Seq<u8>)
    requires
        is_hex_number(d),
    ensures
        resolution(reporting_output(d, tail)) == Ok::<u64, ResolveError>(hex_value(d) as u64),
{
    lemma_reporting_scan(d, tail, 0);
}

proof fn lemma_silent_scan(s: Seq<u8>, start: nat, i: nat)
    requires
        start <= i <= s.len(),
        forall|k: int| 0 <= k <= s.len() - address_prefix().len() ==> #[trigger] s.subrange(k, k + address_prefix().len()) != address_prefix(),
    ensures
        resolution_from(s, start, i) == Err::<u64, ResolveError>(ResolveError::NoAddressLine),
    decreases s.len() - i,
{
    let p = address_prefix();
    let end: int = if i >= s.len() { s.len() as int } else { i as int };
    if i >= s.len() || s[i as int] == NEWLINE {
        let line = s.subrange(start as int, end);
        if line.len() >= p.len() && line.take(p.len() as int) == p {
            assert(s.subrange(start as int, start + p.len() as int) =~= line.take(p.len() as int));
        }
        if i < s.len() {
            lemma_silent_scan(s, i + 1, i + 1);
        }
    } else {
        lemma_silent_scan(s, start, i + 1);
    }
}

/// A debugger output in which the reporting prefix occurs nowhere, as when
/// the target is gone before the debugger attaches, resolves to a failure.
pub proof fn lemma_silent_output_fails(s: Seq<u8>)
    requires
        forall|k: int| 0 <= k <= s.len() - address_prefix().len() ==> #[trigger] s.subrange(k, k + address_prefix().len()) != address_prefix(),
    ensures
        resolution(s) == Err::<u64, ResolveError>(ResolveError::NoAddressLine),
{
    lemma_silent_scan(s, 0, 0);
}

} // verus!

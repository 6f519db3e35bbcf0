use reclaim_memory::outcome::{classify, ignore_proc_death, OsError, StepResult, EPERM, ESRCH};
use reclaim_memory::process::{parse_pid, Process, LABEL_CAPACITY};

#[test]
fn short_label_is_kept() {
    let p = Process::new(12, String::from("/usr/bin/sleep\u{0}100\u{0}"));
    assert_eq!(p.pid, 12);
    assert_eq!(p.cmdline, "/usr/bin/sleep\u{0}100\u{0}");
}

#[test]
fn long_label_is_cut_to_capacity() {
    let text = "a".repeat(300);
    let p = Process::new(1, text);
    assert_eq!(p.cmdline.len(), LABEL_CAPACITY);
    assert_eq!(p.cmdline, "a".repeat(255));
}

#[test]
fn long_label_is_cut_at_a_char_boundary() {
    // 254 ASCII bytes, then a 2-byte char straddling the capacity
    let text = format!("{}é{}", "b".repeat(254), "c".repeat(10));
    let p = Process::new(1, text);
    assert_eq!(p.cmdline, "b".repeat(254));
    let exact = "d".repeat(255);
    assert_eq!(Process::new(1, exact.clone()).cmdline, exact);
}

#[test]
fn own_processes_and_self_are_not_candidates() {
    let p = Process::new(50, String::from("./target/release/reclaim-memory\u{0}51\u{0}"));
    assert!(!p.is_candidate(1));
    let q = Process::new(51, String::from("/usr/bin/python3\u{0}server.py\u{0}"));
    assert!(q.is_candidate(1));
    assert!(!q.is_candidate(51));
    let r = Process::new(52, String::from("reclaim-memor"));
    assert!(r.is_candidate(1));
}

#[test]
fn classification_of_step_results() {
    assert_eq!(classify(Ok(())), StepResult::Success);
    assert_eq!(classify(Err(OsError { errno: ESRCH })), StepResult::TolerableRace);
    assert_eq!(classify(Err(OsError { errno: EPERM })), StepResult::TolerableRace);
    assert_eq!(classify(Err(OsError { errno: 22 })), StepResult::Fatal(OsError { errno: 22 }));
}

#[test]
fn process_death_is_ignored() {
    assert_eq!(ignore_proc_death(Err(OsError { errno: ESRCH })), Ok(()));
    assert_eq!(ignore_proc_death(Err(OsError { errno: EPERM })), Ok(()));
    assert_eq!(ignore_proc_death(Err(OsError { errno: 5 })), Err(OsError { errno: 5 }));
    assert_eq!(ignore_proc_death(Ok(())), Ok(()));
}

#[test]
fn process_ids_in_decimal() {
    assert_eq!(parse_pid("1"), Some(1));
    assert_eq!(parse_pid("4242"), Some(4242));
    assert_eq!(parse_pid("007"), Some(7));
    assert_eq!(parse_pid("2147483647"), Some(i32::MAX));
    assert_eq!(parse_pid("2147483648"), None);
    assert_eq!(parse_pid("99999999999"), None);
    assert_eq!(parse_pid(""), None);
    assert_eq!(parse_pid("self"), None);
    assert_eq!(parse_pid("12a"), None);
    assert_eq!(parse_pid("-1"), None);
}

use reclaim_memory::symbol::{parse_debugger_output, parse_hex, ResolveError};

#[test]
fn resolves_the_reported_address() {
    let out = b"$1 = {<text variable, no debug info>} 0x7f0011aabbcc <malloc_trim>\n";
    assert_eq!(parse_debugger_output(out), Ok(0x7f0011aabbcc));
}

#[test]
fn skips_other_lines_first() {
    let out = b"warning: something\n[Inferior 1 (process 42) detached]\n$1 = {<text variable, no debug info>} 0xABCdef <malloc_trim>";
    assert_eq!(parse_debugger_output(out), Ok(0xabcdef));
}

#[test]
fn first_reporting_line_wins() {
    let out = b"$1 = {<text variable, no debug info>} 0x10 a\n$1 = {<text variable, no debug info>} 0x20 b\n";
    assert_eq!(parse_debugger_output(out), Ok(0x10));
}

#[test]
fn malformed_output_is_a_failure() {
    assert_eq!(parse_debugger_output(b""), Err(ResolveError::NoAddressLine));
    assert_eq!(
        parse_debugger_output(b"ptrace: No such process.\nNo symbol table is loaded.\n"),
        Err(ResolveError::NoAddressLine)
    );
    // no space after the digits
    assert_eq!(
        parse_debugger_output(b"$1 = {<text variable, no debug info>} 0x1234\n"),
        Err(ResolveError::NoAddressLine)
    );
    // the prefix must start the line
    assert_eq!(
        parse_debugger_output(b" $1 = {<text variable, no debug info>} 0x1234 f\n"),
        Err(ResolveError::NoAddressLine)
    );
}

#[test]
fn bad_digits_are_a_failure() {
    assert_eq!(
        parse_debugger_output(b"$1 = {<text variable, no debug info>} 0x12g4 f\n"),
        Err(ResolveError::BadAddress)
    );
    assert_eq!(
        parse_debugger_output(b"$1 = {<text variable, no debug info>} 0x f\n"),
        Err(ResolveError::BadAddress)
    );
    assert_eq!(
        parse_debugger_output(b"$1 = {<text variable, no debug info>} 0x10000000000000000 f\n"),
        Err(ResolveError::BadAddress)
    );
}

#[test]
fn carriage_return_does_not_matter() {
    let out = b"$1 = {<text variable, no debug info>} 0xff <malloc_trim>\r\n";
    assert_eq!(parse_debugger_output(out), Ok(255));
}

#[test]
fn hex_numbers() {
    assert_eq!(parse_hex(b"0"), Some(0));
    assert_eq!(parse_hex(b"1f"), Some(31));
    assert_eq!(parse_hex(b"DeadBeef"), Some(0xdeadbeef));
    assert_eq!(parse_hex(b"ffffffffffffffff"), Some(u64::MAX));
    assert_eq!(parse_hex(b"0000000000000000001"), Some(1));
    assert_eq!(parse_hex(b"10000000000000000"), None);
    assert_eq!(parse_hex(b""), None);
    assert_eq!(parse_hex(b"+1"), None);
    assert_eq!(parse_hex(b"0x1"), None);
}

use vstd::prelude::*;
use vstd::utf8::{encode_utf8, is_char_boundary};
use small_fixed_array::FixedString;

verus! {

/// The most bytes of command-line text a label keeps: the capacity of a
/// `FixedString<u8>`.
pub const LABEL_CAPACITY: usize = 255;

/// The largest char boundary of the UTF-8 text `b` that is at most `k`.
pub open spec fn boundary_at_most(b: Seq<u8>, k: int) -> int
    decreases k,
{
    if k <= 0 {
        0
    } else if is_char_boundary(b, k) {
        k
    } else {
        boundary_at_most(b, k - 1)
    }
}

/// How many bytes of the UTF-8 text `b` a label keeps.
pub open spec fn label_length(b: Seq<u8>) -> int {
    if b.len() <= LABEL_CAPACITY {
        b.len() as int
    } else {
        boundary_at_most(b, LABEL_CAPACITY as int)
    }
}

/// The marker in the command line of this tool's own processes:
/// `reclaim-memory`.
pub open spec fn own_marker() -> Seq<u8> {
    seq![114u8, 101, 99, 108, 97, 105, 109, 45, 109, 101, 109, 111, 114, 121]
}

/// `needle` occurs somewhere in `hay`.
pub open spec fn contains_bytes(hay: Seq<u8>, needle: Seq<u8>) -> bool {
    exists|i: int| 0 <= i <= hay.len() - needle.len() && #[trigger] hay.subrange(i, i + needle.len()) == needle
}

/// Relies on small_fixed_array's `FixedString::<u8>::from_string_trunc`: text
/// of at most 255 bytes is kept whole, longer text is cut at the last char
/// boundary at or below 255 bytes; `into_string` hands the text back as it is.
#[verifier::external_body]
fn truncate_label(text: String) -> (r: String)
    ensures
        encode_utf8(r@) == encode_utf8(text@).take(label_length(encode_utf8(text@))),
{
    FixedString::<u8>::from_string_trunc(text).into_string()
}

fn own_marker_bytes() -> (v: Vec<u8>)
    ensures
        v@ == own_marker(),
{
    let v: Vec<u8> = vec![114u8, 101, 99, 108, 97, 105, 109, 45, 109, 101, 109, 111, 114, 121];
    assert(v@ =~= own_marker());
    v
}

fn occurs_at(hay: &[u8], needle: &Vec<u8>, i: usize) -> (r: bool)
    requires
        i + needle@.len() <= hay@.len(),
    ensures
        r == (hay@.subrange(i as int, i + needle@.len()) == needle@),
{
    let hay_len = hay.len();
    let mut k: usize = 0;
    while k < needle.len()
        invariant
            hay_len == hay@.len(),
            i + needle@.len() <= hay@.len(),
            k <= needle@.len(),
            forall|j: int| 0 <= j < k ==> hay@[i + j] == needle@[j],
        decreases needle@.len() - k,
    {
        assert(i + k < hay@.len());
        if hay[i + k] != needle[k] {
            assert(hay@.subrange(i as int, i + needle@.len())[k as int] != needle@[k as int]);
            return false;
        }
        k = k + 1;
    }
    assert(hay@.subrange(i as int, i + needle@.len()) =~= needle@);
    true
}

fn occurs_in(hay: &[u8], needle: &Vec<u8>) -> (r: bool)
    ensures
        r == contains_bytes(hay@, needle@),
{
    if needle.len() > hay.len() {
        return false;
    }
    let last = hay.len() - needle.len();
    let mut i: usize = 0;
    loop
        invariant
            last == hay@.len() - needle@.len(),
            i <= last,
            forall|j: int| 0 <= j < i ==> #[trigger] hay@.subrange(j, j + needle@.len()) != needle@,
        decreases last - i,
    {
        if occurs_at(hay, needle, i) {
            return true;
        }
        if i == last {
            return false;
        }
        i = i + 1;
    }
}

/// ASCII `0`-`9`.
pub open spec fn is_decimal_digit(b: u8) -> bool {
    48u8 <= b && b <= 57u8
}

/// The number that the decimal digits `d` denote.
pub open spec fn decimal_value(d: Seq<u8>) -> int
    decreases d.len(),
{
    if d.len() == 0 {
        0
    } else {
        10 * decimal_value(d.drop_last()) + (d.last() - 48u8)
    }
}

/// `d` is a non-empty run of decimal digits that denotes a valid `i32`
/// process id.
pub open spec fn is_pid_text(d: Seq<u8>) -> bool {
    &&& d.len() > 0
    &&& forall|i: int| 0 <= i < d.len() ==> is_decimal_digit(#[trigger] d[i])
    &&& decimal_value(d) <= i32::MAX
}

proof fn lemma_decimal_prefix_le(d: Seq<u8>, k: int)
    requires
        0 <= k <= d.len(),
        forall|i: int| 0 <= i < d.len() ==> is_decimal_digit(#[trigger] d[i]),
    ensures
        0 <= decimal_value(d.take(k)) <= decimal_value(d),
    decreases d.len(),
{
    if k < d.len() {
        lemma_decimal_prefix_le(d.drop_last(), k);
        assert(d.drop_last().take(k) =~= d.take(k));
    } else {
        assert(d.take(k) =~= d);
        if d.len() > 0 {
            lemma_decimal_prefix_le(d.drop_last(), k - 1);
        }
    }
}

/// Reads a process id written in decimal digits, as the names of the
/// process directories under `/proc` are; `None` for anything else.
pub fn parse_pid(text: &str) -> (r: Option<i32>)
    ensures
        is_pid_text(encode_utf8(text@)) ==> r == Some(decimal_value(encode_utf8(text@)) as i32),
        !is_pid_text(encode_utf8(text@)) ==> r is None,
{
    let d = text.as_bytes();
    let ghost ds = d@;
    assert(ds == encode_utf8(text@));
    if d.len() == 0 {
        return None;
    }
    let mut acc: i32 = 0;
    let mut i: usize = 0;
    while i < d.len()
        invariant
            ds == d@,
            ds == encode_utf8(text@),
            i <= d@.len(),
            0 <= acc,
            acc == decimal_value(ds.take(i as int)),
            forall|k: int| 0 <= k < i ==> is_decimal_digit(#[trigger] ds[k]),
        decreases d@.len() - i,
    {
        let b = d[i];
        if !(48u8 <= b && b <= 57u8) {
            assert(!is_decimal_digit(ds[i as int]));
            return None;
        }
        assert(ds.take(i + 1).drop_last() =~= ds.take(i as int));
        let digit = (b - 48u8) as i32;
        if acc > (i32::MAX - digit) / 10 {
            proof {
                let full = ds.take(i + 1);
                if forall|k: int| 0 <= k < ds.len() ==> is_decimal_digit(#[trigger] ds[k]) {
                    lemma_decimal_prefix_le(ds, i + 1);
                }
                assert(decimal_value(full) > i32::MAX) by (nonlinear_arith)
                    requires
                        decimal_value(full) == 10 * acc + digit,
                        acc > (i32::MAX - digit) / 10,
                        0 <= digit <= 9,
                ;
            }
            return None;
        }
        assert(0 <= acc * 10 + digit <= i32::MAX) by (nonlinear_arith)
            requires
                0 <= acc <= (i32::MAX - digit) / 10,
                0 <= digit <= 9,
        ;
        acc = acc * 10 + digit;
        i = i + 1;
    }
    assert(ds.take(ds.len() as int) =~= ds);
    Some(acc)
}

/// A process that may be traced: its id and a label taken from its command
/// line.
#[derive(Debug)]
pub struct Process {
    pub pid: i32,
    pub cmdline: String,
}

impl Process {
    /// The handle of process `pid` whose command line reads `cmdline`; the
    /// label keeps at most `LABEL_CAPACITY` bytes of it, cut at a char
    /// boundary.
    pub fn new(pid: i32, cmdline: String) -> (p: Process)
        ensures
            p.pid == pid,
            encode_utf8(p.cmdline@) == encode_utf8(cmdline@).take(label_length(encode_utf8(cmdline@))),
    {
        Process { pid, cmdline: truncate_label(cmdline) }
    }

    /// Whether the process is worth tracing from the process `self_pid`: it
    /// is not that process itself, nor one of this tool's own.
    pub fn is_candidate(&self, self_pid: i32) -> (r: bool)
        ensures
            r == (self.pid != self_pid && !contains_bytes(encode_utf8(self.cmdline@), own_marker())),
    {
        if self.pid == self_pid {
            return false;
        }
        let marker = own_marker_bytes();
        !occurs_in(self.cmdline.as_str().as_bytes(), &marker)
    }
}

} // verus!

use vstd::prelude::*;

verus! {

/// ASCII line feed.
pub const NEWLINE: u8 = 10;

/// ASCII space.
pub const SPACE: u8 = 32;

/// Why the debugger's output gave no address.
#[derive(Clone, Copy, Debug, PartialEq, Eq, Structural)]
pub enum ResolveError {
    /// No line reports the symbol's value.
    NoAddressLine,
    /// The reporting line holds no valid 64-bit hexadecimal address.
    BadAddress,
}

/// What precedes the address on the line where the debugger prints the
/// value of a function symbol without debug information.
pub open spec fn address_prefix() -> Seq<u8> {
    seq![
        36u8, 49u8, 32u8, 61u8, 32u8, 123u8, 60u8, 116u8, 101u8, 120u8, 116u8, 32u8, 118u8, 97u8,
        114u8, 105u8, 97u8, 98u8, 108u8, 101u8, 44u8, 32u8, 110u8, 111u8, 32u8, 100u8, 101u8, 98u8,
        117u8, 103u8, 32u8, 105u8, 110u8, 102u8, 111u8, 62u8, 125u8, 32u8, 48u8, 120u8,
    ]
}

/// ASCII `0`-`9`, `a`-`f` or `A`-`F`.
pub open spec fn is_hex_digit(b: u8) -> bool {
    (48u8 <= b && b <= 57u8) || (97u8 <= b && b <= 102u8) || (65u8 <= b && b <= 70u8)
}

pub open spec fn hex_digit_value(b: u8) -> int {
    if 48u8 <= b && b <= 57u8 {
        b - 48u8
    } else if 97u8 <= b && b <= 102u8 {
        b - 97u8 + 10
    } else if 65u8 <= b && b <= 70u8 {
        b - 65u8 + 10
    } else {
        0
    }
}

/// The number that the digits `d` denote in base 16.
pub open spec fn hex_value(d: Seq<u8>) -> int
    decreases d.len(),
{
    if d.len() == 0 {
        0
    } else {
        16 * hex_value(d.drop_last()) + hex_digit_value(d.last())
    }
}

/// `d` is a non-empty run of hexadecimal digits whose value fits in 64 bits.
pub open spec fn is_hex_number(d: Seq<u8>) -> bool {
    &&& d.len() > 0
    &&& forall|i: int| 0 <= i < d.len() ==> is_hex_digit(#[trigger] d[i])
    &&& hex_value(d) <= u64::MAX
}

/// The first space in `rest` at or after `j`, or the length if there is none.
pub open spec fn first_space(rest: Seq<u8>, j: nat) -> nat
    decreases rest.len() - j,
{
    if j >= rest.len() {
        rest.len()
    } else if rest[j as int] == SPACE {
        j
    } else {
        first_space(rest, j + 1)
    }
}

/// The address digits of `line`: what follows the prefix up to the first
/// space, if the line starts with the prefix and has a space after it.
pub open spec fn address_field(line: Seq<u8>) -> Option<Seq<u8>> {
    let p = address_prefix();
    if line.len() >= p.len() && line.take(p.len() as int) == p {
        let rest = line.skip(p.len() as int);
        let k = first_space(rest, 0);
        if k < rest.len() {
            Some(rest.take(k as int))
        } else {
            None
        }
    } else {
        None
    }
}

/// What an address field amounts to.
pub open spec fn field_address(d: Seq<u8>) -> Result<u64, ResolveError> {
    if is_hex_number(d) {
        Ok(hex_value(d) as u64)
    } else {
        Err(ResolveError::BadAddress)
    }
}

/// Reading the lines of `s` in order, the current one starting at `start`
/// and `i` bytes read: the first line with an address field decides.
pub open spec fn resolution_from(s: Seq<u8>, start: nat, i: nat) -> Result<u64, ResolveError>
    decreases s.len() - i,
{
    if i >= s.len() {
        match address_field(s.subrange(start as int, s.len() as int)) {
            Some(d) => field_address(d),
            None => Err(ResolveError::NoAddressLine),
        }
    } else if s[i as int] == NEWLINE {
        match address_field(s.subrange(start as int, i as int)) {
            Some(d) => field_address(d),
            None => resolution_from(s, i + 1, i + 1),
        }
    } else {
        resolution_from(s, start, i + 1)
    }
}

/// The address that the debugger output `s` reports.
pub open spec fn resolution(s: Seq<u8>) -> Result<u64, ResolveError> {
    resolution_from(s, 0, 0)
}

proof fn lemma_hex_value_nonneg(d: Seq<u8>)
    ensures
        hex_value(d) >= 0,
    decreases d.len(),
{
    if d.len() > 0 {
        lemma_hex_value_nonneg(d.drop_last());
    }
}

/// A prefix of a digit run never denotes more than the whole run.
proof fn lemma_hex_prefix_le(d: Seq<u8>, k: int)
    requires
        0 <= k <= d.len(),
    ensures
        hex_value(d.take(k)) <= hex_value(d),
    decreases d.len(),
{
    if k < d.len() {
        lemma_hex_prefix_le(d.drop_last(), k);
        lemma_hex_value_nonneg(d.drop_last());
        assert(d.drop_last().take(k) =~= d.take(k));
    } else {
        assert(d.take(k) =~= d);
    }
}

fn hex_digit(b: u8) -> (r: Option<u64>)
    ensures
        is_hex_digit(b) ==> r == Some(hex_digit_value(b) as u64),
        !is_hex_digit(b) ==> r is None,
{
    if 48u8 <= b && b <= 57u8 {
        Some((b - 48u8) as u64)
    } else if 97u8 <= b && b <= 102u8 {
        Some((b - 97u8 + 10) as u64)
    } else if 65u8 <= b && b <= 70u8 {
        Some((b - 65u8 + 10) as u64)
    } else {
        None
    }
}

fn parse_hex_range(s: &[u8], a: usize, b: usize) -> (r: Option<u64>)
    requires
        a <= b <= s@.len(),
    ensures
        is_hex_number(s@.subrange(a as int, b as int)) ==> r == Some(
            hex_value(s@.subrange(a as int, b as int)) as u64,
        ),
        !is_hex_number(s@.subrange(a as int, b as int)) ==> r is None,
{
    let ghost d = s@.subrange(a as int, b as int);
    if a == b {
        return None;
    }
    let mut acc: u64 = 0;
    let mut i: usize = a;
    while i < b
        invariant
            a <= i <= b <= s@.len(),
            d == s@.subrange(a as int, b as int),
            acc == hex_value(d.take(i - a)),
            forall|k: int| 0 <= k < i - a ==> is_hex_digit(#[trigger] d[k]),
        decreases b - i,
    {
        let digit = match hex_digit(s[i]) {
            Some(v) => v,
            None => {
                assert(!is_hex_digit(d[i - a]));
                return None;
            },
        };
        assert(d.take(i + 1 - a).drop_last() =~= d.take(i - a));
        if acc >= 0x1000_0000_0000_0000 {
            proof {
                lemma_hex_prefix_le(d, i + 1 - a);
            }
            return None;
        }
        acc = acc * 16 + digit;
        i = i + 1;
    }
    assert(d.take(b - a) =~= d);
    Some(acc)
}

/// Reads a non-empty run of hexadecimal digits as a 64-bit number; `None`
/// for anything else, or for a value that does not fit.
pub fn parse_hex(digits: &[u8]) -> (r: Option<u64>)
    ensures
        is_hex_number(digits@) ==> r == Some(hex_value(digits@) as u64),
        !is_hex_number(digits@) ==> r is None,
{
    assert(digits@.subrange(0, digits@.len() as int) =~= digits@);
    parse_hex_range(digits, 0, digits.len())
}

fn address_prefix_bytes() -> (v: Vec<u8>)
    ensures
        v@ == address_prefix(),
{
    let v: Vec<u8> = vec![
        36u8, 49u8, 32u8, 61u8, 32u8, 123u8, 60u8, 116u8, 101u8, 120u8, 116u8, 32u8, 118u8, 97u8,
        114u8, 105u8, 97u8, 98u8, 108u8, 101u8, 44u8, 32u8, 110u8, 111u8, 32u8, 100u8, 101u8, 98u8,
        117u8, 103u8, 32u8, 105u8, 110u8, 102u8, 111u8, 62u8, 125u8, 32u8, 48u8, 120u8,
    ];
    assert(v@ =~= address_prefix());
    v
}

/// Where the address field of the line `s[start..end]` lies, if it has one.
fn find_address_field(s: &[u8], start: usize, end: usize) -> (r: Option<(usize, usize)>)
    requires
        start <= end <= s@.len(),
    ensures
        match address_field(s@.subrange(start as int, end as int)) {
            Some(d) => r matches Some((a, b)) && start <= a <= b <= end && s@.subrange(a as int, b as int) == d,
            None => r is None,
        },
{
    let ghost line = s@.subrange(start as int, end as int);
    let prefix = address_prefix_bytes();
    let n = prefix.len();
    if end - start < n {
        return None;
    }
    let mut k: usize = 0;
    while k < n
        invariant
            n == prefix@.len(),
            prefix@ == address_prefix(),
            start + n <= end <= s@.len(),
            line == s@.subrange(start as int, end as int),
            k <= n,
            forall|j: int| 0 <= j < k ==> line[j] == prefix@[j],
        decreases n - k,
    {
        if s[start + k] != prefix[k] {
            assert(line.take(n as int)[k as int] != address_prefix()[k as int]);
            return None;
        }
        k = k + 1;
    }
    assert(line.take(n as int) =~= address_prefix());
    let a = start + n;
    let ghost rest = line.skip(n as int);
    let mut j: usize = a;
    while j < end
        invariant
            start + n == a <= j <= end <= s@.len(),
            line == s@.subrange(start as int, end as int),
            rest == line.skip(n as int),
            rest.len() == end - a,
            n == address_prefix().len(),
            line.take(n as int) == address_prefix(),
            first_space(rest, 0) == first_space(rest, (j - a) as nat),
        decreases end - j,
    {
        if s[j] == SPACE {
            assert(rest[j - a] == SPACE);
            assert(first_space(rest, (j - a) as nat) == (j - a) as nat);
            assert(rest.take(j - a) =~= s@.subrange(a as int, j as int));
            assert(address_field(line) == Some(rest.take(j - a)));
            return Some((a, j));
        }
        assert(rest[j - a] != SPACE);
        j = j + 1;
    }
    None
}

/// The address that the debugger output reports: the first line that starts
/// with the prefix and has a space after it decides, whether its digits are
/// valid or not.
pub fn parse_debugger_output(output: &[u8]) -> (r: Result<u64, ResolveError>)
    ensures
        r == resolution(output@),
{
    let mut start: usize = 0;
    let mut i: usize = 0;
    while i < output.len()
        invariant
            start <= i <= output@.len(),
            resolution(output@) == resolution_from(output@, start as nat, i as nat),
        decreases output@.len() - i,
    {
        if output[i] == NEWLINE {
            match find_address_field(output, start, i) {
                Some((a, b)) => {
                    return match parse_hex_range(output, a, b) {
                        Some(v) => Ok(v),
                        None => Err(ResolveError::BadAddress),
                    };
                },
                None => {
                    start = i + 1;
                },
            }
        }
        i = i + 1;
    }
    match find_address_field(output, start, output.len()) {
        Some((a, b)) => match parse_hex_range(output, a, b) {
            Some(v) => Ok(v),
            None => Err(ResolveError::BadAddress),
        },
        None => Err(ResolveError::NoAddressLine),
    }
}

} // verus!

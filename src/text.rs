//! Character-sequence helpers: conversions at the `str` boundary, number
//! rendering, and component-aware path prefix stripping.
use vstd::prelude::*;

verus! {

/// Relies on `str::chars` (collected into a `Vec`): yields the characters of `s` in order.
#[verifier::external_body]
pub(crate) fn chars_of(s: &str) -> (r: Vec<char>)
    ensures
        r@ == s@,
{
    s.chars().collect()
}

/// Relies on `FromIterator<char> for String`: the string holds exactly the given characters.
#[verifier::external_body]
pub(crate) fn string_of(v: &Vec<char>) -> (r: String)
    ensures
        r@ == v@,
{
    v.iter().collect()
}

/// Character equality of two sequences.
pub fn chars_eq(a: &Vec<char>, b: &Vec<char>) -> (r: bool)
    ensures
        r == (a@ == b@),
{
    if a.len() != b.len() {
        return false;
    }
    let mut i: usize = 0;
    while i < a.len()
        invariant
            a@.len() == b@.len(),
            i <= a@.len(),
            a@.subrange(0, i as int) == b@.subrange(0, i as int),
        decreases a@.len() - i,
    {
        if a[i] != b[i] {
            assert(a@[i as int] != b@[i as int]);
            return false;
        }
        assert(a@.subrange(0, i + 1) == a@.subrange(0, i as int).push(a@[i as int]));
        assert(b@.subrange(0, i + 1) == b@.subrange(0, i as int).push(b@[i as int]));
        i = i + 1;
    }
    assert(a@ == a@.subrange(0, a@.len() as int));
    assert(b@ == b@.subrange(0, b@.len() as int));
    true
}

/// Upper-case digit character for a digit value below sixteen.
pub open spec fn digit_char(d: nat) -> char {
    if d == 0 { '0' } else if d == 1 { '1' } else if d == 2 { '2' } else if d == 3 { '3' }
    else if d == 4 { '4' } else if d == 5 { '5' } else if d == 6 { '6' } else if d == 7 { '7' }
    else if d == 8 { '8' } else if d == 9 { '9' } else if d == 10 { 'A' } else if d == 11 { 'B' }
    else if d == 12 { 'C' } else if d == 13 { 'D' } else if d == 14 { 'E' } else { 'F' }
}

/// Positional notation of `n` in base sixteen (`hex`) or ten, most significant
/// digit first, without leading zeros.
pub open spec fn digits(n: nat, hex: bool) -> Seq<char>
    decreases n,
{
    if hex {
        if n < 16 {
            seq![digit_char(n)]
        } else {
            digits(n / 16, hex).push(digit_char(n % 16))
        }
    } else {
        if n < 10 {
            seq![digit_char(n)]
        } else {
            digits(n / 10, hex).push(digit_char(n % 10))
        }
    }
}

/// Decimal rendering of a signed integer, with a leading `-` when negative.
pub open spec fn decimal(i: int) -> Seq<char> {
    if i < 0 {
        seq!['-'] + digits((-i) as nat, false)
    } else {
        digits(i as nat, false)
    }
}

/// Upper-case hexadecimal rendering of the 32-bit two's complement form of `i`.
pub open spec fn hex32(i: int) -> Seq<char> {
    if i < 0 {
        digits((i + 0x1_0000_0000) as nat, true)
    } else {
        digits(i as nat, true)
    }
}

fn digit(d: u64) -> (c: char)
    requires
        d < 16,
    ensures
        c == digit_char(d as nat),
{
    if d == 0 { '0' } else if d == 1 { '1' } else if d == 2 { '2' } else if d == 3 { '3' }
    else if d == 4 { '4' } else if d == 5 { '5' } else if d == 6 { '6' } else if d == 7 { '7' }
    else if d == 8 { '8' } else if d == 9 { '9' } else if d == 10 { 'A' } else if d == 11 { 'B' }
    else if d == 12 { 'C' } else if d == 13 { 'D' } else if d == 14 { 'E' } else { 'F' }
}

/// Renders `n` in base ten or sixteen.
pub fn render_unsigned(n: u64, base: u64) -> (r: Vec<char>)
    requires
        base == 10 || base == 16,
    ensures
        r@ == digits(n as nat, base == 16),
{
    let mut m: u64 = n;
    let mut acc: Vec<char> = Vec::new();
    loop
        invariant
            base == 10 || base == 16,
            digits(n as nat, base == 16) == digits(m as nat, base == 16) + acc@,
        decreases m,
    {
        let c = digit(m % base);
        acc.insert(0, c);
        if m < base {
            assert(acc@ == seq![c] + (acc@.subrange(1, acc@.len() as int)));
            return acc;
        }
        let ghost old_acc = acc@.subrange(1, acc@.len() as int);
        assert(digits(m as nat, base == 16) == digits((m / base) as nat, base == 16).push(c));
        assert(digits((m / base) as nat, base == 16).push(c) + old_acc
            == digits((m / base) as nat, base == 16) + acc@);
        m = m / base;
    }
}

/// Decimal text of a signed integer.
pub fn render_decimal(i: i64) -> (r: Vec<char>)
    ensures
        r@ == decimal(i as int),
{
    if i < 0 {
        let m: u64 = (-(i as i128)) as u64;
        let tail = render_unsigned(m, 10);
        let mut out: Vec<char> = vec!['-'];
        let mut rest = tail;
        out.append(&mut rest);
        out
    } else {
        render_unsigned(i as u64, 10)
    }
}

/// Upper-case hexadecimal text of a 32-bit integer, negative values in two's complement.
pub fn render_hex32(i: i32) -> (r: Vec<char>)
    ensures
        r@ == hex32(i as int),
{
    if i < 0 {
        render_unsigned((i as i64 + 0x1_0000_0000i64) as u64, 16)
    } else {
        render_unsigned(i as u64, 16)
    }
}

/// The remainder of `path` below the directory `prefix`, compared component-wise:
/// `/a/b` is below `/a` (remainder `b`) and below itself (empty remainder), but
/// `/ab` is not below `/a`. Paths are taken to be normalised (no repeated or
/// trailing separators, save the root `/` itself).
pub open spec fn strip_path(path: Seq<char>, prefix: Seq<char>) -> Option<Seq<char>> {
    if prefix.len() <= path.len() && path.subrange(0, prefix.len() as int) == prefix {
        let rest = path.subrange(prefix.len() as int, path.len() as int);
        if rest.len() == 0 {
            Some(rest)
        } else if rest[0] == '/' {
            Some(rest.subrange(1, rest.len() as int))
        } else if prefix.len() > 0 && prefix.last() == '/' {
            Some(rest)
        } else {
            None
        }
    } else {
        None
    }
}

/// Whether `prefix` is a leading part of `s`.
pub fn starts_with(s: &Vec<char>, prefix: &Vec<char>) -> (r: bool)
    ensures
        r == (prefix@.len() <= s@.len() && s@.subrange(0, prefix@.len() as int) == prefix@),
{
    if prefix.len() > s.len() {
        return false;
    }
    let mut i: usize = 0;
    while i < prefix.len()
        invariant
            prefix@.len() <= s@.len(),
            i <= prefix@.len(),
            s@.subrange(0, i as int) == prefix@.subrange(0, i as int),
        decreases prefix@.len() - i,
    {
        if s[i] != prefix[i] {
            assert(s@.subrange(0, prefix@.len() as int)[i as int] != prefix@[i as int]);
            return false;
        }
        assert(s@.subrange(0, i + 1) == s@.subrange(0, i as int).push(s@[i as int]));
        assert(prefix@.subrange(0, i + 1) == prefix@.subrange(0, i as int).push(prefix@[i as int]));
        i = i + 1;
    }
    assert(prefix@ == prefix@.subrange(0, prefix@.len() as int));
    true
}

fn suffix_from(s: &Vec<char>, start: usize) -> (r: Vec<char>)
    requires
        start <= s@.len(),
    ensures
        r@ == s@.subrange(start as int, s@.len() as int),
{
    let mut out: Vec<char> = Vec::new();
    let mut i: usize = start;
    while i < s.len()
        invariant
            start <= i <= s@.len(),
            out@ == s@.subrange(start as int, i as int),
        decreases s@.len() - i,
    {
        out.push(s[i]);
        assert(s@.subrange(start as int, i + 1) == s@.subrange(start as int, i as int).push(s@[i as int]));
        i = i + 1;
    }
    out
}

/// Strips the directory `prefix` from `path`, component-wise (see [`strip_path`]).
pub fn path_strip(path: &Vec<char>, prefix: &Vec<char>) -> (r: Option<Vec<char>>)
    ensures
        r matches Some(v) ==> strip_path(path@, prefix@) == Some(v@),
        r is None ==> strip_path(path@, prefix@) is None,
{
    if !starts_with(path, prefix) {
        return None;
    }
    let n = prefix.len();
    if n == path.len() {
        let empty: Vec<char> = Vec::new();
        assert(path@.subrange(n as int, path@.len() as int) =~= empty@);
        return Some(empty);
    }
    if path[n] == '/' {
        let r = suffix_from(path, n + 1);
        assert(r@ =~= path@.subrange(n as int, path@.len() as int).subrange(1, (path@.len() - n) as int));
        return Some(r);
    }
    if n > 0 && prefix[n - 1] == '/' {
        return Some(suffix_from(path, n));
    }
    None
}

} // verus!

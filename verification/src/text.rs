//! Small string-building helpers shared by the path, NVS and NMEA code.

use vstd::prelude::*;

verus! {

/// `String::push`: appends one character.
#[verifier::external_body]
pub(crate) fn push_char(s: &mut String, c: char)
    ensures
        final(s)@ == old(s)@.push(c),
{
    s.push(c);
}

/// The characters of `s` as a vector.
pub fn chars_of(s: &str) -> (v: Vec<char>)
    ensures
        v@ == s@,
{
    let n = s.unicode_len();
    let mut v: Vec<char> = Vec::new();
    let mut i: usize = 0;
    while i < n
        invariant
            n == s@.len(),
            i <= n,
            v@ == s@.subrange(0, i as int),
        decreases n - i,
    {
        let c = s.get_char(i);
        v.push(c);
        assert(v@ =~= s@.subrange(0, i + 1));
        i = i + 1;
    }
    assert(v@ =~= s@);
    v
}

/// Uppercase hexadecimal digit of a nibble.
pub open spec fn hex_digit(n: u8) -> char {
    if n < 10 {
        ((48 + n) as u8) as char
    } else {
        ((55 + n) as u8) as char
    }
}

pub fn hex_digit_char(n: u8) -> (c: char)
    requires
        n < 16,
    ensures
        c == hex_digit(n),
{
    if n < 10 {
        (48u8 + n) as char
    } else {
        (55u8 + n) as char
    }
}

/// The decimal digit character of `d` (0 to 9).
pub open spec fn digit_char(d: int) -> char {
    ((48 + d) as u8) as char
}

/// Decimal notation of a natural number, without leading zeros.
pub open spec fn decimal(n: nat) -> Seq<char>
    decreases n,
{
    if n < 10 {
        seq![digit_char(n as int)]
    } else {
        decimal(n / 10).push(digit_char((n % 10) as int))
    }
}

/// `s` left-padded with `0` to at least `width` characters.
pub open spec fn zero_padded(s: Seq<char>, width: nat) -> Seq<char> {
    if s.len() >= width {
        s
    } else {
        Seq::new((width - s.len()) as nat, |i: int| '0') + s
    }
}

/// Decimal notation of `n`, zero-padded to `width` (Rust's `{:0width$}`).
pub open spec fn padded_decimal(n: nat, width: nat) -> Seq<char> {
    zero_padded(decimal(n), width)
}

fn push_decimal_digits(out: &mut String, n: u64)
    ensures
        final(out)@ == old(out)@ + decimal(n as nat),
    decreases n,
{
    if n >= 10 {
        push_decimal_digits(out, n / 10);
    }
    push_char(out, (48u8 + (n % 10) as u8) as char);
    assert(final(out)@ =~= old(out)@ + decimal(n as nat));
}

/// Appends `n` in decimal, zero-padded to `width` characters.
pub fn push_decimal(out: &mut String, n: u64, width: usize)
    ensures
        final(out)@ == old(out)@ + padded_decimal(n as nat, width as nat),
{
    let mut digits = String::new();
    push_decimal_digits(&mut digits, n);
    let len = digits.as_str().unicode_len();
    let mut pad: usize = 0;
    let ghost start = out@;
    while len + pad < width
        invariant
            len == decimal(n as nat).len(),
            digits@ == Seq::<char>::empty() + decimal(n as nat),
            out@ == start + Seq::new(pad as nat, |i: int| '0'),
            len + pad <= width || pad == 0,
        decreases width - len - pad,
    {
        push_char(out, '0');
        assert(out@ =~= start + Seq::new((pad + 1) as nat, |i: int| '0'));
        pad = pad + 1;
    }
    out.append(digits.as_str());
    proof {
        let d = decimal(n as nat);
        assert(digits@ =~= d);
        if d.len() >= width {
            assert(pad == 0);
            assert(out@ =~= start + d);
        } else {
            assert(pad == width - d.len());
            assert(out@ =~= start + (Seq::new((width - d.len()) as nat, |i: int| '0') + d));
        }
    }
}

/// What a C caller's buffer of `buffer_len` bytes receives for `value`: as
/// much of `value` as fits before a terminating NUL, nothing for an empty
/// buffer.
pub open spec fn terminated_prefix_spec(value: Seq<u8>, buffer_len: nat) -> Seq<u8> {
    if buffer_len == 0 {
        Seq::empty()
    } else {
        let n = if value.len() < buffer_len - 1 { value.len() as int } else { buffer_len - 1 };
        value.subrange(0, n).push(0u8)
    }
}

/// The bytes to copy into a C buffer of `buffer_len` bytes for `value`;
/// the caller still reports the full length of `value`.
pub fn terminated_prefix(value: &[u8], buffer_len: usize) -> (out: Vec<u8>)
    ensures
        out@ == terminated_prefix_spec(value@, buffer_len as nat),
        out@.len() <= buffer_len,
{
    let mut out: Vec<u8> = Vec::new();
    if buffer_len == 0 {
        return out;
    }
    let n: usize = if value.len() < buffer_len - 1 { value.len() } else { buffer_len - 1 };
    let mut i: usize = 0;
    while i < n
        invariant
            n <= value@.len(),
            i <= n,
            out@ == value@.subrange(0, i as int),
        decreases n - i,
    {
        out.push(value[i]);
        i = i + 1;
    }
    out.push(0u8);
    out
}

} // verus!

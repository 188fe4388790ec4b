use vstd::prelude::*;
use crate::text::{char_from_ascii_code, string_from_chars};

verus! {

/// The ASCII digit for `d`.
pub open spec fn digit_char(d: nat) -> char {
    (('0' as u32) + d) as char
}

/// The decimal digits of `n`, most significant first, without leading zeros.
pub open spec fn digits_text(n: nat) -> Seq<char>
    decreases n,
{
    if n < 10 {
        seq![digit_char(n)]
    } else {
        digits_text(n / 10).push(digit_char(n % 10))
    }
}

/// `n` written in decimal, with a leading `-` when negative (`Display` for
/// integers).
pub open spec fn decimal_text(n: int) -> Seq<char> {
    if n < 0 {
        seq!['-'] + digits_text((-n) as nat)
    } else {
        digits_text(n as nat)
    }
}

fn push_digits(out: &mut Vec<char>, n: u64)
    ensures
        final(out)@ == old(out)@ + digits_text(n as nat),
    decreases n,
{
    if n >= 10 {
        push_digits(out, n / 10);
    }
    let d = (n % 10) as u8;
    let c = char_from_ascii_code(48 + d);
    let ghost before = out@;
    out.push(c);
    proof {
        assert(c == digit_char((n % 10) as nat));
        if n < 10 {
            assert(digits_text(n as nat) == seq![digit_char(n as nat)]);
        }
    }
}

/// `n` written in decimal.
pub fn decimal_string(n: i64) -> (s: String)
    ensures
        s@ == decimal_text(n as int),
{
    let mut out: Vec<char> = Vec::new();
    if n < 0 {
        out.push('-');
        let magnitude: u64 = if n == i64::MIN { 0x8000_0000_0000_0000 } else { (-n) as u64 };
        push_digits(&mut out, magnitude);
    } else {
        push_digits(&mut out, n as u64);
        assert(out@ == Seq::<char>::empty() + digits_text(n as nat));
    }
    string_from_chars(out.as_slice())
}

/// The lower-case hexadecimal digit for `d < 16`.
pub open spec fn hex_digit(d: nat) -> char {
    if d < 10 {
        (('0' as u32) + d) as char
    } else {
        (('a' as u32) + d - 10) as char
    }
}

/// `n` in lower-case hexadecimal without leading zeros (`{:x}`).
pub open spec fn hex_text(n: nat) -> Seq<char>
    decreases n,
{
    if n < 16 {
        seq![hex_digit(n)]
    } else {
        hex_text(n / 16).push(hex_digit(n % 16))
    }
}

fn push_hex(out: &mut Vec<char>, n: u64)
    ensures
        final(out)@ == old(out)@ + hex_text(n as nat),
    decreases n,
{
    if n >= 16 {
        push_hex(out, n / 16);
    }
    let d = (n % 16) as u8;
    let c = if d < 10 { char_from_ascii_code(48 + d) } else { char_from_ascii_code(87 + d) };
    out.push(c);
    proof {
        assert(c == hex_digit((n % 16) as nat));
        if n < 16 {
            assert(hex_text(n as nat) == seq![hex_digit(n as nat)]);
        }
    }
}

/// `n` in lower-case hexadecimal.
pub fn hex_string(n: u64) -> (s: String)
    ensures
        s@ == hex_text(n as nat),
{
    let mut out: Vec<char> = Vec::new();
    push_hex(&mut out, n);
    assert(out@ == Seq::<char>::empty() + hex_text(n as nat));
    string_from_chars(out.as_slice())
}


/// The last `count` hexadecimal digits of `n`, zero-padded (`{:0count$x}`
/// for values that fit).
pub open spec fn hex_padded(n: nat, count: nat) -> Seq<char>
    decreases count,
{
    if count == 0 {
        Seq::empty()
    } else {
        hex_padded(n / 16, (count - 1) as nat).push(hex_digit(n % 16))
    }
}

fn push_hex_padded(out: &mut Vec<char>, n: u64, count: u32)
    ensures
        final(out)@ == old(out)@ + hex_padded(n as nat, count as nat),
    decreases count,
{
    if count == 0 {
        assert(old(out)@ + hex_padded(n as nat, 0) =~= old(out)@);
        return;
    }
    push_hex_padded(out, n / 16, count - 1);
    let d = (n % 16) as u8;
    let c = if d < 10 { char_from_ascii_code(48 + d) } else { char_from_ascii_code(87 + d) };
    out.push(c);
    proof {
        assert(c == hex_digit((n % 16) as nat));
    }
}

/// `n` as sixteen lower-case hexadecimal digits (`{:016x}`).
pub fn hex16_string(n: u64) -> (s: String)
    ensures
        s@ == hex_padded(n as nat, 16),
{
    let mut out: Vec<char> = Vec::new();
    push_hex_padded(&mut out, n, 16);
    assert(out@ =~= hex_padded(n as nat, 16));
    string_from_chars(out.as_slice())
}

} // verus!

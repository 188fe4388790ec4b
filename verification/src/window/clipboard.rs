use vstd::prelude::*;
use crate::text::chars_of;

verus! {

broadcast use vstd::string::group_string_axioms;

/// Clipboard text with every line ending (`\r\n`, lone `\r`, lone `\n`)
/// turned into `\r\n`.
pub open spec fn crlf_normalized(s: Seq<char>) -> Seq<char>
    decreases s.len(),
{
    if s.len() == 0 {
        Seq::empty()
    } else if s[0] == '\r' && s.len() >= 2 && s[1] == '\n' {
        seq!['\r', '\n'] + crlf_normalized(s.subrange(2, s.len() as int))
    } else if s[0] == '\r' || s[0] == '\n' {
        seq!['\r', '\n'] + crlf_normalized(s.drop_first())
    } else {
        seq![s[0]] + crlf_normalized(s.drop_first())
    }
}

/// The UTF-16 code units of one character.
pub open spec fn utf16_units(c: char) -> Seq<u16> {
    let u = c as u32;
    if u < 0x10000 {
        seq![u as u16]
    } else {
        let v = (u - 0x10000) as int;
        seq![(0xD800 + v / 0x400) as u16, (0xDC00 + v % 0x400) as u16]
    }
}

/// The UTF-16 encoding of a character sequence (`str::encode_utf16`).
pub open spec fn utf16_of(s: Seq<char>) -> Seq<u16>
    decreases s.len(),
{
    if s.len() == 0 {
        Seq::empty()
    } else {
        utf16_of(s.drop_last()) + utf16_units(s.last())
    }
}

fn push_utf16(out: &mut Vec<u16>, c: char)
    ensures
        final(out)@ == old(out)@ + utf16_units(c),
{
    let u = c as u32;
    if u < 0x10000 {
        out.push(u as u16);
    } else {
        assert(u <= 0x10FFFF);
        let v = u - 0x10000;
        out.push((0xD800 + v / 0x400) as u16);
        out.push((0xDC00 + v % 0x400) as u16);
    }
}

/// The UTF-16, NUL-terminated clipboard payload for `text`, with line
/// endings normalised to `\r\n`. Text holding a NUL is refused.
pub fn unicode_clipboard_contents(text: &str) -> (contents: Result<Vec<u16>, String>)
    ensures
        text@.contains('\0') ==> (contents matches Err(e) && e@
            == "clipboard text cannot contain a null character"@),
        !text@.contains('\0') ==> (contents matches Ok(units) && units@ == utf16_of(crlf_normalized(text@)).push(
            0u16,
        )),
{
    let cs = chars_of(text);
    let n = cs.len();
    let mut i: usize = 0;
    while i < n
        invariant
            n == cs@.len(),
            cs@ == text@,
            i <= n,
            forall|j: int| 0 <= j < i ==> cs@[j] != '\0',
        decreases n - i,
    {
        if cs[i] == '\0' {
            assert(text@[i as int] == '\0');
            return Err(String::from_str("clipboard text cannot contain a null character"));
        }
        i = i + 1;
    }
    assert(!text@.contains('\0'));
    let mut normalized: Vec<char> = Vec::new();
    let mut k: usize = 0;
    assert(cs@.subrange(0, n as int) == cs@);
    assert(normalized@ + crlf_normalized(cs@) == crlf_normalized(cs@));
    while k < n
        invariant
            n == cs@.len(),
            k <= n,
            normalized@ + crlf_normalized(cs@.subrange(k as int, n as int)) == crlf_normalized(cs@),
        decreases n - k,
    {
        let ghost rest = cs@.subrange(k as int, n as int);
        let c = cs[k];
        if c == '\r' && k + 1 < n && cs[k + 1] == '\n' {
            assert(rest.subrange(2, rest.len() as int) == cs@.subrange(k + 2, n as int));
            normalized.push('\r');
            normalized.push('\n');
            k = k + 2;
        } else if c == '\r' || c == '\n' {
            assert(rest.drop_first() == cs@.subrange(k + 1, n as int));
            normalized.push('\r');
            normalized.push('\n');
            k = k + 1;
        } else {
            assert(rest.drop_first() == cs@.subrange(k + 1, n as int));
            normalized.push(c);
            k = k + 1;
        }
    }
    assert(cs@.subrange(n as int, n as int) == Seq::<char>::empty());
    assert(normalized@ + Seq::<char>::empty() == normalized@);
    assert(cs@.subrange(0, n as int) == cs@);
    let mut units: Vec<u16> = Vec::new();
    let mut j: usize = 0;
    while j < normalized.len()
        invariant
            j <= normalized@.len(),
            units@ == utf16_of(normalized@.take(j as int)),
        decreases normalized@.len() - j,
    {
        assert(normalized@.take(j + 1).drop_last() == normalized@.take(j as int));
        push_utf16(&mut units, normalized[j]);
        j = j + 1;
    }
    assert(normalized@.take(normalized@.len() as int) == normalized@);
    units.push(0);
    Ok(units)
}

/// Law: normalised clipboard text holds no bare `\r` or `\n`: every `\r` is
/// followed by `\n` and every `\n` follows a `\r`.
pub proof fn law_clipboard_line_endings_are_crlf(s: Seq<char>)
    ensures
        forall|i: int| 0 <= i < crlf_normalized(s).len() && #[trigger] crlf_normalized(s)[i] == '\r' ==> i + 1
            < crlf_normalized(s).len() && crlf_normalized(s)[i + 1] == '\n',
        forall|i: int| 0 <= i < crlf_normalized(s).len() && #[trigger] crlf_normalized(s)[i] == '\n' ==> i > 0
            && crlf_normalized(s)[i - 1] == '\r',
    decreases s.len(),
{
    if s.len() > 0 {
        let (head, tail) = if s[0] == '\r' && s.len() >= 2 && s[1] == '\n' {
            (seq!['\r', '\n'], s.subrange(2, s.len() as int))
        } else if s[0] == '\r' || s[0] == '\n' {
            (seq!['\r', '\n'], s.drop_first())
        } else {
            (seq![s[0]], s.drop_first())
        };
        law_clipboard_line_endings_are_crlf(tail);
        let r = crlf_normalized(s);
        let t = crlf_normalized(tail);
        assert(r == head + t);
        assert forall|i: int| 0 <= i < r.len() && #[trigger] r[i] == '\r' implies i + 1 < r.len() && r[i + 1] == '\n' by {
            if i >= head.len() {
                assert(r[i] == t[i - head.len()]);
                assert(r[i + 1] == t[i + 1 - head.len()]);
            }
        }
        assert forall|i: int| 0 <= i < r.len() && #[trigger] r[i] == '\n' implies i > 0 && r[i - 1] == '\r' by {
            if i >= head.len() {
                assert(r[i] == t[i - head.len()]);
                if i > head.len() {
                    assert(r[i - 1] == t[i - 1 - head.len()]);
                } else {
                    assert(t[0] == '\n');
                }
            }
        }
    }
}

} // verus!

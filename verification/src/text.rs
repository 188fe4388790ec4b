use vstd::prelude::*;

verus! {

broadcast use vstd::string::group_string_axioms;

/// Unicode `White_Space`, the set that `char::is_whitespace` and
/// `str::trim` use.
pub open spec fn is_whitespace(c: char) -> bool {
    let u = c as u32;
    ||| 0x09 <= u <= 0x0D
    ||| u == 0x20
    ||| u == 0x85
    ||| u == 0xA0
    ||| u == 0x1680
    ||| 0x2000 <= u <= 0x200A
    ||| u == 0x2028
    ||| u == 0x2029
    ||| u == 0x202F
    ||| u == 0x205F
    ||| u == 0x3000
}

/// Whether `c` is white space in the sense of [`is_whitespace`].
pub fn char_is_whitespace(c: char) -> (b: bool)
    ensures
        b == is_whitespace(c),
{
    let u = c as u32;
    (0x09 <= u && u <= 0x0D) || u == 0x20 || u == 0x85 || u == 0xA0 || u == 0x1680 || (0x2000
        <= u && u <= 0x200A) || u == 0x2028 || u == 0x2029 || u == 0x202F || u == 0x205F || u
        == 0x3000
}

/// The characters of `s`, in order.
pub fn chars_of(s: &str) -> (v: Vec<char>)
    ensures
        v@ == s@,
{
    let mut v: Vec<char> = Vec::new();
    for c in it: s.chars()
        invariant
            it.seq() == s@,
            v@ == s@.take(it.index()),
    {
        v.push(c);
    }
    assert(v@ == s@.take(s@.len() as int));
    v
}


/// A `String` holding exactly `chars`, in order (std's
/// `FromIterator<&char> for String`).
#[verifier::external_body]
pub(crate) fn string_from_chars(chars: &[char]) -> (s: String)
    ensures
        s@ == chars@,
{
    chars.iter().collect()
}

/// `s` without its leading white space.
pub open spec fn skip_ws(s: Seq<char>) -> Seq<char>
    decreases s.len(),
{
    if s.len() > 0 && is_whitespace(s[0]) {
        skip_ws(s.drop_first())
    } else {
        s
    }
}

/// `s` without its trailing white space.
pub open spec fn trim_end(s: Seq<char>) -> Seq<char>
    decreases s.len(),
{
    if s.len() > 0 && is_whitespace(s.last()) {
        trim_end(s.drop_last())
    } else {
        s
    }
}

/// `s` without leading and trailing white space (`str::trim`).
pub open spec fn trim(s: Seq<char>) -> Seq<char> {
    trim_end(skip_ws(s))
}

/// The leading run of `s` that holds no white space.
pub open spec fn first_word(s: Seq<char>) -> Seq<char>
    decreases s.len(),
{
    if s.len() > 0 && !is_whitespace(s[0]) {
        seq![s[0]] + first_word(s.drop_first())
    } else {
        Seq::empty()
    }
}

/// What follows [`first_word`] in `s`.
pub open spec fn after_first_word(s: Seq<char>) -> Seq<char>
    decreases s.len(),
{
    if s.len() > 0 && !is_whitespace(s[0]) {
        after_first_word(s.drop_first())
    } else {
        s
    }
}

/// The index in `s` at which [`skip_ws`] of `s[from..to]` starts.
pub fn skip_ws_index(s: &[char], from: usize, to: usize) -> (r: usize)
    requires
        from <= to <= s@.len(),
    ensures
        from <= r <= to,
        s@.subrange(r as int, to as int) == skip_ws(s@.subrange(from as int, to as int)),
{
    let mut i = from;
    while i < to && char_is_whitespace(s[i])
        invariant
            from <= i <= to <= s@.len(),
            skip_ws(s@.subrange(i as int, to as int)) == skip_ws(s@.subrange(from as int, to as int)),
        decreases to - i,
    {
        assert(s@.subrange(i as int, to as int).drop_first() == s@.subrange(i + 1, to as int));
        i = i + 1;
    }
    proof {
        let t = s@.subrange(i as int, to as int);
        if i < to {
            assert(!is_whitespace(t[0]));
        }
        assert(skip_ws(t) == t);
    }
    i
}

/// The index in `s` at which [`trim_end`] of `s[from..to]` ends.
pub fn trim_end_index(s: &[char], from: usize, to: usize) -> (r: usize)
    requires
        from <= to <= s@.len(),
    ensures
        from <= r <= to,
        s@.subrange(from as int, r as int) == trim_end(s@.subrange(from as int, to as int)),
{
    let mut j = to;
    while j > from && char_is_whitespace(s[j - 1])
        invariant
            from <= j <= to <= s@.len(),
            trim_end(s@.subrange(from as int, j as int)) == trim_end(s@.subrange(from as int, to as int)),
        decreases j - from,
    {
        assert(s@.subrange(from as int, j as int).drop_last() == s@.subrange(from as int, j - 1));
        j = j - 1;
    }
    proof {
        let t = s@.subrange(from as int, j as int);
        if j > from {
            assert(t.last() == s@[j - 1]);
        }
        assert(trim_end(t) == t);
    }
    j
}

/// The index in `s` at which [`first_word`] of `s[from..to]` ends.
pub fn word_end_index(s: &[char], from: usize, to: usize) -> (r: usize)
    requires
        from <= to <= s@.len(),
    ensures
        from <= r <= to,
        s@.subrange(from as int, r as int) == first_word(s@.subrange(from as int, to as int)),
        s@.subrange(r as int, to as int) == after_first_word(s@.subrange(from as int, to as int)),
{
    let mut i = from;
    while i < to && !char_is_whitespace(s[i])
        invariant
            from <= i <= to <= s@.len(),
            s@.subrange(from as int, i as int) + first_word(s@.subrange(i as int, to as int))
                == first_word(s@.subrange(from as int, to as int)),
            after_first_word(s@.subrange(i as int, to as int)) == after_first_word(
                s@.subrange(from as int, to as int),
            ),
        decreases to - i,
    {
        let ghost t = s@.subrange(i as int, to as int);
        assert(t.drop_first() == s@.subrange(i + 1, to as int));
        assert(s@.subrange(from as int, i + 1) == s@.subrange(from as int, i as int) + seq![s@[i as int]]);
        i = i + 1;
    }
    proof {
        let t = s@.subrange(i as int, to as int);
        if i < to {
            assert(is_whitespace(t[0]));
        }
        assert(first_word(t) == Seq::<char>::empty());
        assert(s@.subrange(from as int, i as int) + Seq::<char>::empty() == s@.subrange(from as int, i as int));
    }
    i
}

/// A copy of `s[from..to]`.
pub fn copy_range(s: &[char], from: usize, to: usize) -> (r: Vec<char>)
    requires
        from <= to <= s@.len(),
    ensures
        r@ == s@.subrange(from as int, to as int),
{
    let mut r: Vec<char> = Vec::new();
    let mut i = from;
    while i < to
        invariant
            from <= i <= to <= s@.len(),
            r@ == s@.subrange(from as int, i as int),
        decreases to - i,
    {
        r.push(s[i]);
        i = i + 1;
    }
    r
}

/// A `String` holding `s[from..to]`.
pub fn string_from_range(s: &[char], from: usize, to: usize) -> (r: String)
    requires
        from <= to <= s@.len(),
    ensures
        r@ == s@.subrange(from as int, to as int),
{
    let v = copy_range(s, from, to);
    string_from_chars(v.as_slice())
}

/// `s` with surrounding white space removed, as a new `String`.
pub fn trim_str(s: &str) -> (r: String)
    ensures
        r@ == trim(s@),
{
    let cs = chars_of(s);
    let start = skip_ws_index(cs.as_slice(), 0, cs.len());
    let end = trim_end_index(cs.as_slice(), start, cs.len());
    proof {
        assert(cs@.subrange(0, cs@.len() as int) == s@);
    }
    string_from_range(cs.as_slice(), start, end)
}

/// Whether `a` and `b` hold the same characters.
pub fn chars_equal(a: &[char], b: &[char]) -> (eq: bool)
    ensures
        eq == (a@ == b@),
{
    if a.len() != b.len() {
        return false;
    }
    let mut i: usize = 0;
    while i < a.len()
        invariant
            a@.len() == b@.len(),
            i <= a@.len(),
            forall|k: int| 0 <= k < i ==> a@[k] == b@[k],
        decreases a@.len() - i,
    {
        if a[i] != b[i] {
            return false;
        }
        i = i + 1;
    }
    assert(a@ == b@);
    true
}

/// Whether `a[from..to]` holds the same characters as `b`.
pub fn range_equals(a: &[char], from: usize, to: usize, b: &[char]) -> (eq: bool)
    requires
        from <= to <= a@.len(),
    ensures
        eq == (a@.subrange(from as int, to as int) == b@),
{
    if to - from != b.len() {
        return false;
    }
    let mut i: usize = 0;
    while i < b.len()
        invariant
            to - from == b@.len(),
            from <= to <= a@.len(),
            i <= b@.len(),
            forall|k: int| 0 <= k < i ==> a@[from + k] == b@[k],
        decreases b@.len() - i,
    {
        if a[from + i] != b[i] {
            return false;
        }
        i = i + 1;
    }
    assert(a@.subrange(from as int, to as int) == b@);
    true
}

/// ASCII lower case of `c` (`char::to_ascii_lowercase`).
pub open spec fn ascii_lower(c: char) -> char {
    if 'A' <= c <= 'Z' {
        ((c as u32) + 32) as char
    } else {
        c
    }
}

/// ASCII lower case of a character.
pub fn char_ascii_lower(c: char) -> (r: char)
    ensures
        r == ascii_lower(c),
{
    if 'A' <= c && c <= 'Z' {
        let u = (c as u32) + 32;
        assert(0x61 <= u <= 0x7a);
        let r = char_from_ascii_code(u as u8);
        r
    } else {
        c
    }
}

/// The ASCII character with code `code`.
pub fn char_from_ascii_code(code: u8) -> (c: char)
    requires
        code < 128,
    ensures
        c as u32 == code as u32,
{
    code as char
}

/// `str::eq_ignore_ascii_case` on character sequences.
pub open spec fn eq_ignore_ascii_case(a: Seq<char>, b: Seq<char>) -> bool {
    a.len() == b.len() && forall|i: int| 0 <= i < a.len() ==> ascii_lower(#[trigger] a[i]) == ascii_lower(b[i])
}

/// Whether `a[from..to]` equals `b` ignoring ASCII case.
pub fn range_eq_ignore_ascii_case(a: &[char], from: usize, to: usize, b: &[char]) -> (eq: bool)
    requires
        from <= to <= a@.len(),
    ensures
        eq == eq_ignore_ascii_case(a@.subrange(from as int, to as int), b@),
{
    if to - from != b.len() {
        return false;
    }
    let mut i: usize = 0;
    while i < b.len()
        invariant
            to - from == b@.len(),
            from <= to <= a@.len(),
            i <= b@.len(),
            forall|k: int| 0 <= k < i ==> ascii_lower(a@[from + k]) == ascii_lower(b@[k]),
        decreases b@.len() - i,
    {
        if char_ascii_lower(a[from + i]) != char_ascii_lower(b[i]) {
            proof {
                let sub = a@.subrange(from as int, to as int);
                assert(sub[i as int] == a@[from + i]);
            }
            return false;
        }
        i = i + 1;
    }
    let ghost sub = a@.subrange(from as int, to as int);
    assert forall|k: int| 0 <= k < sub.len() implies ascii_lower(#[trigger] sub[k]) == ascii_lower(b@[k]) by {
        assert(sub[k] == a@[from + k]);
    }
    true
}

/// Whether every character of `w` is white space.
pub open spec fn all_whitespace(w: Seq<char>) -> bool {
    forall|i: int| 0 <= i < w.len() ==> is_whitespace(#[trigger] w[i])
}

proof fn lemma_skip_all_whitespace(w: Seq<char>)
    requires
        all_whitespace(w),
    ensures
        skip_ws(w) == Seq::<char>::empty(),
    decreases w.len(),
{
    if w.len() > 0 {
        assert(is_whitespace(w[0]));
        lemma_skip_all_whitespace(w.drop_first());
    }
}

proof fn lemma_skip_leading_whitespace(w: Seq<char>, s: Seq<char>)
    requires
        all_whitespace(w),
    ensures
        skip_ws(w + s) == skip_ws(s),
    decreases w.len(),
{
    if w.len() == 0 {
        assert(w + s == s);
    } else {
        assert(is_whitespace(w[0]));
        assert((w + s)[0] == w[0]);
        assert((w + s).drop_first() == w.drop_first() + s);
        lemma_skip_leading_whitespace(w.drop_first(), s);
    }
}

proof fn lemma_skip_then_trailing_whitespace(s: Seq<char>, w: Seq<char>)
    requires
        all_whitespace(w),
    ensures
        skip_ws(s).len() > 0 ==> skip_ws(s + w) == skip_ws(s) + w,
        skip_ws(s).len() == 0 ==> skip_ws(s + w).len() == 0,
    decreases s.len(),
{
    if s.len() == 0 {
        assert(s + w == w);
        lemma_skip_all_whitespace(w);
    } else {
        assert((s + w)[0] == s[0]);
        if is_whitespace(s[0]) {
            assert((s + w).drop_first() == s.drop_first() + w);
            lemma_skip_then_trailing_whitespace(s.drop_first(), w);
        }
    }
}

proof fn lemma_trim_end_trailing_whitespace(s: Seq<char>, w: Seq<char>)
    requires
        all_whitespace(w),
    ensures
        trim_end(s + w) == trim_end(s),
    decreases w.len(),
{
    if w.len() == 0 {
        assert(s + w == s);
    } else {
        assert(is_whitespace(w[w.len() - 1]));
        assert((s + w).last() == w.last());
        assert((s + w).drop_last() == s + w.drop_last());
        lemma_trim_end_trailing_whitespace(s, w.drop_last());
    }
}

/// Trimming ignores white space added around a text.
pub proof fn lemma_trim_ignores_surrounding_whitespace(before: Seq<char>, s: Seq<char>, after: Seq<char>)
    requires
        all_whitespace(before),
        all_whitespace(after),
    ensures
        trim(before + s + after) == trim(s),
{
    assert(before + s + after == before + (s + after));
    lemma_skip_leading_whitespace(before, s + after);
    lemma_skip_then_trailing_whitespace(s, after);
    if skip_ws(s).len() > 0 {
        lemma_trim_end_trailing_whitespace(skip_ws(s), after);
    } else {
        assert(skip_ws(s + after) =~= skip_ws(s));
    }
}

} // verus!

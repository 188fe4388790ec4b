use vstd::prelude::*;
use crate::text::{chars_of, string_from_range};

verus! {

/// The index of the first `'\n'` in `s`, or its length.
pub open spec fn newline_index(s: Seq<char>) -> nat
    decreases s.len(),
{
    if s.len() == 0 {
        0
    } else if s[0] == '\n' {
        0
    } else {
        1 + newline_index(s.drop_first())
    }
}

/// The lines of `s` as `str::lines` yields them: split at `'\n'`, a `'\r'`
/// before the `'\n'` dropped, and no empty line after a final `'\n'`.
pub open spec fn lines_of(s: Seq<char>) -> Seq<Seq<char>>
    decreases s.len(),
{
    if s.len() == 0 {
        Seq::empty()
    } else {
        let k = newline_index(s) as int;
        if k < s.len() {
            let raw = s.subrange(0, k);
            let line = if raw.len() > 0 && raw.last() == '\r' { raw.drop_last() } else { raw };
            seq![line] + lines_of(s.subrange(k + 1, s.len() as int))
        } else {
            seq![s]
        }
    }
}

proof fn lemma_newline_index(s: Seq<char>)
    ensures
        newline_index(s) <= s.len(),
        newline_index(s) < s.len() ==> s[newline_index(s) as int] == '\n',
        forall|j: int| 0 <= j < newline_index(s) ==> s[j] != '\n',
    decreases s.len(),
{
    if s.len() > 0 && s[0] != '\n' {
        lemma_newline_index(s.drop_first());
        assert forall|j: int| 0 <= j < newline_index(s) implies s[j] != '\n' by {
            if j > 0 {
                assert(s[j] == s.drop_first()[j - 1]);
            }
        }
    }
}

proof fn lemma_newline_index_at(s: Seq<char>, k: int)
    requires
        0 <= k <= s.len(),
        k < s.len() ==> s[k] == '\n',
        forall|j: int| 0 <= j < k ==> s[j] != '\n',
    ensures
        newline_index(s) == k,
    decreases s.len(),
{
    if s.len() > 0 && k > 0 {
        lemma_newline_index_at(s.drop_first(), k - 1);
    }
}

/// The lines of `text` (`str::lines`).
pub fn split_lines(text: &str) -> (lines: Vec<String>)
    ensures
        lines@.map_values(|l: String| l@) == lines_of(text@),
{
    let cs = chars_of(text);
    let n = cs.len();
    let mut lines: Vec<String> = Vec::new();
    let mut start: usize = 0;
    assert(cs@.subrange(0, n as int) == text@);
    while start < n
        invariant
            n == cs@.len(),
            start <= n,
            lines@.map_values(|l: String| l@) + lines_of(cs@.subrange(start as int, n as int)) == lines_of(text@),
        decreases n - start,
    {
        let mut k = start;
        while k < n && cs[k] != '\n'
            invariant
                start <= k <= n,
                n == cs@.len(),
                forall|j: int| start <= j < k ==> cs@[j] != '\n',
            decreases n - k,
        {
            k = k + 1;
        }
        let ghost rest = cs@.subrange(start as int, n as int);
        proof {
            lemma_newline_index_at(rest, (k - start) as int);
            assert(rest.subrange(0, (k - start) as int) == cs@.subrange(start as int, k as int));
        }
        let ghost old_lines = lines@.map_values(|l: String| l@);
        if k < n {
            let end = if k > start && cs[k - 1] == '\r' { k - 1 } else { k };
            let line = string_from_range(cs.as_slice(), start, end);
            lines.push(line);
            proof {
                assert(rest.subrange((k - start + 1) as int, rest.len() as int) == cs@.subrange(k + 1, n as int));
                let raw = rest.subrange(0, (k - start) as int);
                if raw.len() > 0 && raw.last() == '\r' {
                    assert(raw.drop_last() == cs@.subrange(start as int, end as int));
                }
                assert(lines@.map_values(|l: String| l@) == old_lines.push(line@));
                assert(old_lines.push(line@) + lines_of(cs@.subrange(k + 1, n as int)) == old_lines + (seq![line@] + lines_of(cs@.subrange(k + 1, n as int))));
            }
            start = k + 1;
        } else {
            let line = string_from_range(cs.as_slice(), start, n);
            lines.push(line);
            proof {
                assert(lines@.map_values(|l: String| l@) == old_lines.push(line@));
                assert(cs@.subrange(n as int, n as int) == Seq::<char>::empty());
                assert(old_lines.push(line@) + Seq::<Seq<char>>::empty() == old_lines + seq![line@]);
            }
            start = n;
        }
    }
    proof {
        assert(cs@.subrange(start as int, n as int) == Seq::<char>::empty());
        assert(lines@.map_values(|l: String| l@) + Seq::<Seq<char>>::empty() == lines@.map_values(|l: String| l@));
    }
    lines
}

/// A line followed by `'\n'` and more text reads as that line and then the
/// lines of the rest.
pub proof fn lemma_lines_of_line_then(x: Seq<char>, r: Seq<char>)
    requires
        !x.contains('\n'),
        x.len() == 0 || x.last() != '\r',
    ensures
        lines_of(x + "\n"@ + r) == seq![x] + lines_of(r),
{
    reveal_strlit("\n");
    let s = x + "\n"@ + r;
    assert("\n"@ =~= seq!['\n']);
    assert(s[x.len() as int] == '\n');
    assert forall|j: int| 0 <= j < x.len() implies s[j] != '\n' by {
        assert(s[j] == x[j]);
        if x[j] == '\n' {
            assert(x.contains('\n'));
        }
    }
    lemma_newline_index_at(s, x.len() as int);
    assert(s.subrange(0, x.len() as int) =~= x);
    assert(s.subrange(x.len() as int + 1, s.len() as int) =~= r);
}

/// A non-empty text without `'\n'` is one line.
pub proof fn lemma_lines_of_single(x: Seq<char>)
    requires
        x.len() > 0,
        !x.contains('\n'),
    ensures
        lines_of(x) == seq![x],
{
    assert forall|j: int| 0 <= j < x.len() implies x[j] != '\n' by {
        if x[j] == '\n' {
            assert(x.contains('\n'));
        }
    }
    lemma_newline_index_at(x, x.len() as int);
}

} // verus!

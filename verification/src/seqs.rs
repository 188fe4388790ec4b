use vstd::prelude::*;

verus! {

/// Every element of a filtered sequence comes from the sequence.
pub proof fn lemma_filter_contains<A>(s: Seq<A>, pred: spec_fn(A) -> bool, i: int)
    requires
        0 <= i < s.filter(pred).len(),
    ensures
        s.contains(s.filter(pred)[i]),
        pred(s.filter(pred)[i]),
    decreases s.len(),
{
    reveal(Seq::filter);
    broadcast use vstd::seq_lib::group_filter_ensures;

    if s.len() > 0 {
        let rest = s.drop_last();
        let f = rest.filter(pred);
        if i < f.len() {
            lemma_filter_contains(rest, pred, i);
            let j = choose|j: int| 0 <= j < rest.len() && rest[j] == f[i];
            assert(s[j] == rest[j]);
        } else {
            assert(s[s.len() - 1] == s.last());
        }
    }
}

/// No two elements of `s` share a key.
pub open spec fn unique_keys<A, K>(s: Seq<A>, key: spec_fn(A) -> K) -> bool {
    forall|i: int, j: int| 0 <= i < s.len() && 0 <= j < s.len() && i != j ==> key(s[i]) != key(s[j])
}

/// Filtering keeps keys unique.
pub proof fn lemma_filter_unique_keys<A, K>(s: Seq<A>, pred: spec_fn(A) -> bool, key: spec_fn(A) -> K)
    requires
        unique_keys(s, key),
    ensures
        unique_keys(s.filter(pred), key),
    decreases s.len(),
{
    reveal(Seq::filter);
    if s.len() > 0 {
        let rest = s.drop_last();
        assert(unique_keys(rest, key)) by {
            assert forall|i: int, j: int| 0 <= i < rest.len() && 0 <= j < rest.len() && i != j implies key(
                rest[i],
            ) != key(rest[j]) by {
                assert(rest[i] == s[i] && rest[j] == s[j]);
            }
        }
        lemma_filter_unique_keys(rest, pred, key);
        let f = rest.filter(pred);
        if pred(s.last()) {
            assert forall|i: int| 0 <= i < f.len() implies key(f[i]) != key(s.last()) by {
                lemma_filter_contains(rest, pred, i);
                let j = choose|j: int| 0 <= j < rest.len() && rest[j] == f[i];
                assert(rest[j] == s[j]);
                assert(s.last() == s[s.len() - 1]);
            }
            let g = f.push(s.last());
            assert(s.filter(pred) == g);
            assert forall|i: int, j: int| 0 <= i < g.len() && 0 <= j < g.len() && i != j implies key(g[i])
                != key(g[j]) by {
                if i < f.len() && j < f.len() {
                    assert(g[i] == f[i] && g[j] == f[j]);
                } else if i < f.len() {
                    assert(g[i] == f[i]);
                } else if j < f.len() {
                    assert(g[j] == f[j]);
                }
            }
        } else {
            assert(s.filter(pred) == f);
        }
    }
}

/// Filtering keeps a sequence free of duplicates.
pub proof fn lemma_filter_no_duplicates<A>(s: Seq<A>, pred: spec_fn(A) -> bool)
    requires
        s.no_duplicates(),
    ensures
        s.filter(pred).no_duplicates(),
{
    let id = |a: A| a;
    assert(unique_keys(s, id)) by {
        assert forall|i: int, j: int| 0 <= i < s.len() && 0 <= j < s.len() && i != j implies id(s[i]) != id(
            s[j],
        ) by {}
    }
    lemma_filter_unique_keys(s, pred, id);
    let f = s.filter(pred);
    assert forall|i: int, j: int| 0 <= i < f.len() && 0 <= j < f.len() && i != j implies f[i] != f[j] by {
        assert(id(f[i]) != id(f[j]));
    }
}

/// An element of `s` that the predicate keeps is in the filtered sequence.
pub proof fn lemma_filter_keeps<A>(s: Seq<A>, pred: spec_fn(A) -> bool, i: int)
    requires
        0 <= i < s.len(),
        pred(s[i]),
    ensures
        s.filter(pred).contains(s[i]),
    decreases s.len(),
{
    reveal(Seq::filter);
    if i < s.len() - 1 {
        let rest = s.drop_last();
        assert(rest[i] == s[i]);
        lemma_filter_keeps(rest, pred, i);
        let f = rest.filter(pred);
        let k = choose|k: int| 0 <= k < f.len() && f[k] == s[i];
        if pred(s.last()) {
            assert(s.filter(pred) == f.push(s.last()));
            assert(s.filter(pred)[k] == f[k]);
        } else {
            assert(s.filter(pred) == f);
        }
    } else {
        let rest = s.drop_last();
        let f = rest.filter(pred);
        assert(s.last() == s[i]);
        assert(s.filter(pred) == f.push(s.last()));
        assert(s.filter(pred)[f.len() as int] == s[i]);
    }
}

} // verus!

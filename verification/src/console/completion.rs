use vstd::prelude::*;
use vstd::relations::{sorted_by, total_ordering};
use crate::app::texts;
use crate::text::{
    after_first_word, chars_of, eq_ignore_ascii_case, first_word, range_eq_ignore_ascii_case, range_equals, skip_ws,
    skip_ws_index, string_from_range, word_end_index,
};

verus! {

broadcast use vstd::string::group_string_axioms;

/// Whether `a` sorts before or together with `b`: lexicographic order of
/// the characters' code points, which is the order of `String`s.
pub open spec fn text_le(a: Seq<char>, b: Seq<char>) -> bool
    decreases a.len(),
{
    if a.len() == 0 {
        true
    } else if b.len() == 0 {
        false
    } else if a[0] != b[0] {
        (a[0] as int) < (b[0] as int)
    } else {
        text_le(a.drop_first(), b.drop_first())
    }
}

/// The order of texts, as a relation.
pub open spec fn text_order() -> spec_fn(Seq<char>, Seq<char>) -> bool {
    |a: Seq<char>, b: Seq<char>| text_le(a, b)
}

proof fn lemma_text_le_reflexive(a: Seq<char>)
    ensures
        text_le(a, a),
    decreases a.len(),
{
    if a.len() > 0 {
        lemma_text_le_reflexive(a.drop_first());
    }
}

proof fn lemma_text_le_antisymmetric(a: Seq<char>, b: Seq<char>)
    requires
        text_le(a, b),
        text_le(b, a),
    ensures
        a == b,
    decreases a.len(),
{
    if a.len() > 0 && b.len() > 0 {
        lemma_text_le_antisymmetric(a.drop_first(), b.drop_first());
        assert(a =~= seq![a[0]] + a.drop_first());
        assert(b =~= seq![b[0]] + b.drop_first());
    }
}

proof fn lemma_text_le_transitive(a: Seq<char>, b: Seq<char>, c: Seq<char>)
    requires
        text_le(a, b),
        text_le(b, c),
    ensures
        text_le(a, c),
    decreases a.len(),
{
    if a.len() > 0 && b.len() > 0 && c.len() > 0 {
        if a[0] == b[0] && b[0] == c[0] {
            lemma_text_le_transitive(a.drop_first(), b.drop_first(), c.drop_first());
        }
    }
}

proof fn lemma_text_le_total(a: Seq<char>, b: Seq<char>)
    ensures
        text_le(a, b) || text_le(b, a),
    decreases a.len(),
{
    if a.len() > 0 && b.len() > 0 && a[0] == b[0] {
        lemma_text_le_total(a.drop_first(), b.drop_first());
    }
}

/// Law: the order of texts is a total order.
pub proof fn law_text_order_is_total()
    ensures
        total_ordering(text_order()),
{
    let r = text_order();
    assert forall|x: Seq<char>| #[trigger] r(x, x) by {
        lemma_text_le_reflexive(x);
    }
    assert forall|x: Seq<char>, y: Seq<char>| #[trigger] r(x, y) && #[trigger] r(y, x) implies x == y by {
        lemma_text_le_antisymmetric(x, y);
    }
    assert forall|x: Seq<char>, y: Seq<char>, z: Seq<char>| #[trigger] r(x, y) && #[trigger] r(y, z) implies r(
        x,
        z,
    ) by {
        lemma_text_le_transitive(x, y, z);
    }
    assert forall|x: Seq<char>, y: Seq<char>| #[trigger] r(x, y) || #[trigger] r(y, x) by {
        lemma_text_le_total(x, y);
    }
}

/// Compares two texts in the order of `String`s.
pub fn chars_le(a: &[char], b: &[char]) -> (le: bool)
    ensures
        le == text_le(a@, b@),
{
    let mut i: usize = 0;
    assert(a@.skip(0) =~= a@ && b@.skip(0) =~= b@);
    while i < a.len() && i < b.len() && a[i] == b[i]
        invariant
            i <= a@.len(),
            i <= b@.len(),
            text_le(a@, b@) == text_le(a@.skip(i as int), b@.skip(i as int)),
        decreases a@.len() - i,
    {
        proof {
            assert(a@.skip(i as int).drop_first() =~= a@.skip(i + 1));
            assert(b@.skip(i as int).drop_first() =~= b@.skip(i + 1));
        }
        i = i + 1;
    }
    if i == a.len() {
        true
    } else if i == b.len() {
        false
    } else {
        proof {
            assert(a@.skip(i as int)[0] == a@[i as int] && b@.skip(i as int)[0] == b@[i as int]);
        }
        a[i] < b[i]
    }
}

/// `texts` in the order of `String`s.
pub fn sort_texts(items: Vec<String>) -> (sorted: Vec<String>)
    ensures
        texts(sorted@) == texts(items@).sort_by(text_order()),
{
    let mut sorted: Vec<String> = Vec::new();
    let mut i: usize = 0;
    proof {
        law_text_order_is_total();
        assert(texts(items@).take(0) =~= Seq::<Seq<char>>::empty());
        assert(texts(sorted@) =~= Seq::<Seq<char>>::empty());
    }
    while i < items.len()
        invariant
            i <= items@.len(),
            total_ordering(text_order()),
            sorted_by(texts(sorted@), text_order()),
            texts(sorted@).to_multiset() == texts(items@).take(i as int).to_multiset(),
        decreases items@.len() - i,
    {
        let item = chars_of(items[i].as_str());
        let mut k: usize = 0;
        while k < sorted.len() && chars_le(chars_of(sorted[k].as_str()).as_slice(), item.as_slice())
            invariant
                k <= sorted@.len(),
                forall|j: int| 0 <= j < k ==> text_le(#[trigger] sorted@[j]@, item@),
            decreases sorted@.len() - k,
        {
            k = k + 1;
        }
        let ghost before = texts(sorted@);
        sorted.insert(k, items[i].clone());
        proof {
            let r = text_order();
            let after = texts(sorted@);
            assert(after =~= before.insert(k as int, items@[i as int]@));
            assert forall|a: int, b: int| 0 <= a < b < after.len() implies #[trigger] r(after[a], after[b]) by {
                if b < k {
                    assert(after[a] == before[a] && after[b] == before[b]);
                } else if b == k {
                    assert(after[a] == before[a]);
                } else if a == k {
                    assert(after[b] == before[b - 1]);
                    if k < before.len() {
                        lemma_text_le_total(before[k as int], item@);
                        if b - 1 > k {
                            assert(r(before[k as int], before[b - 1]));
                            lemma_text_le_transitive(item@, before[k as int], before[b - 1]);
                        }
                    }
                } else if a < k {
                    assert(after[a] == before[a] && after[b] == before[b - 1]);
                } else {
                    assert(after[a] == before[a - 1] && after[b] == before[b - 1]);
                }
            }
            vstd::seq_lib::to_multiset_insert(before, k as int, items@[i as int]@);
            assert(texts(items@).take(i + 1) =~= texts(items@).take(i as int).push(items@[i as int]@));
            vstd::seq_lib::to_multiset_build(texts(items@).take(i as int), items@[i as int]@);
        }
        i = i + 1;
    }
    proof {
        assert(texts(items@).take(items@.len() as int) =~= texts(items@));
        texts(items@).lemma_sort_by_ensures(text_order());
        vstd::seq_lib::lemma_sorted_unique(texts(sorted@), texts(items@).sort_by(text_order()), text_order());
    }
    sorted
}


/// The commands the console completes, in the order offered.
pub open spec fn command_names() -> Seq<Seq<char>> {
    seq!["load"@, "reload"@, "resume"@, "capture"@, "clear"@, "exit"@]
}

/// For each name in `names` that starts with `input`, the rest of it, in order.
pub open spec fn name_suffixes(names: Seq<Seq<char>>, input: Seq<char>) -> Seq<Seq<char>>
    decreases names.len(),
{
    if names.len() == 0 {
        Seq::empty()
    } else {
        let rest = name_suffixes(names.drop_last(), input);
        let last = names.last();
        if input.len() <= last.len() && last.take(input.len() as int) == input {
            rest.push(last.skip(input.len() as int))
        } else {
            rest
        }
    }
}

/// Whether `c` separates path components.
pub open spec fn is_separator(c: char) -> bool {
    c == '/' || c == '\\'
}

/// Where the last component of a path starts: after its last separator.
pub open spec fn component_start(p: Seq<char>) -> int
    decreases p.len(),
{
    if p.len() == 0 {
        0
    } else if is_separator(p.last()) {
        p.len() as int
    } else {
        component_start(p.drop_last())
    }
}

/// What Tab completes the line with.
#[derive(Debug)]
pub enum CompletionQuery {
    /// The rests of the command names the line starts.
    Commands(Vec<String>),
    /// Names in `directory` that start with `prefix` (ignoring ASCII case);
    /// `quoted` when the path was opened with a quote.
    Directory { directory: String, prefix: String, quoted: bool },
    /// Nothing to complete.
    Nothing,
}

/// The command names, as strings.
fn command_name_list() -> (names: Vec<String>)
    ensures
        texts(names@) == command_names(),
{
    let mut names: Vec<String> = Vec::new();
    names.push(String::from_str("load"));
    names.push(String::from_str("reload"));
    names.push(String::from_str("resume"));
    names.push(String::from_str("capture"));
    names.push(String::from_str("clear"));
    names.push(String::from_str("exit"));
    assert(texts(names@) =~= command_names());
    names
}

/// The rests of the command names that start with `input`.
pub fn command_completions(input: &[char]) -> (completions: Vec<String>)
    ensures
        texts(completions@) == name_suffixes(command_names(), input@),
{
    let names = command_name_list();
    let mut completions: Vec<String> = Vec::new();
    let mut i: usize = 0;
    while i < names.len()
        invariant
            i <= names@.len(),
            texts(names@) == command_names(),
            texts(completions@) == name_suffixes(texts(names@).take(i as int), input@),
        decreases names@.len() - i,
    {
        proof {
            assert(texts(names@).take(i + 1).drop_last() =~= texts(names@).take(i as int));
            assert(texts(names@).take(i + 1).last() == names@[i as int]@);
        }
        let name = chars_of(names[i].as_str());
        if input.len() <= name.len() && range_equals(name.as_slice(), 0, input.len(), input) {
            let rest = string_from_range(name.as_slice(), input.len(), name.len());
            proof {
                assert(name@.subrange(0, input@.len() as int) == name@.take(input@.len() as int));
                assert(name@.subrange(input@.len() as int, name@.len() as int) =~= name@.skip(input@.len() as int));
            }
            let ghost before = texts(completions@);
            completions.push(rest);
            assert(texts(completions@) =~= before.push(rest@));
        } else {
            proof {
                if input@.len() <= name@.len() {
                    assert(name@.subrange(0, input@.len() as int) == name@.take(input@.len() as int));
                }
            }
        }
        i = i + 1;
    }
    assert(texts(names@).take(names@.len() as int) =~= texts(names@));
    completions
}

/// The index just after the last separator in `s[from..to]`, or `from`.
fn component_start_index(s: &[char], from: usize, to: usize) -> (r: usize)
    requires
        from <= to <= s@.len(),
    ensures
        from <= r <= to,
        r - from == component_start(s@.subrange(from as int, to as int)),
{
    let mut j = to;
    while j > from && !(s[j - 1] == '/' || s[j - 1] == '\\')
        invariant
            from <= j <= to <= s@.len(),
            component_start(s@.subrange(from as int, j as int)) == component_start(s@.subrange(from as int, to as int)),
        decreases j - from,
    {
        assert(s@.subrange(from as int, j as int).drop_last() =~= s@.subrange(from as int, j - 1));
        j = j - 1;
    }
    j
}

/// What Tab should complete a line with.
pub fn completion_query(line: &str) -> (query: CompletionQuery)
    ensures
        ({
            let input = skip_ws(line@);
            let argument = skip_ws(after_first_word(input));
            let quoted = argument.len() > 0 && argument[0] == '"';
            let path = if quoted {
                argument.drop_first()
            } else {
                argument
            };
            let start = component_start(path);
            &&& after_first_word(input).len() == 0 ==> (query matches CompletionQuery::Commands(list) && texts(
                list@,
            ) == name_suffixes(command_names(), input))
            &&& after_first_word(input).len() > 0 && first_word(input) == "load"@ ==> (query matches CompletionQuery::Directory {
                directory,
                prefix,
                quoted: q,
            } && q == quoted && prefix@ == path.skip(start) && directory@ == (if start == 0 {
                "."@
            } else {
                path.take(start)
            }))
            &&& after_first_word(input).len() > 0 && first_word(input) != "load"@ ==> query is Nothing
        }),
{
    let cs = chars_of(line);
    let len = cs.len();
    let start = skip_ws_index(cs.as_slice(), 0, len);
    assert(cs@.subrange(0, len as int) =~= line@);
    let word_end = word_end_index(cs.as_slice(), start, len);
    if word_end == len {
        let input = crate::text::copy_range(cs.as_slice(), start, len);
        return CompletionQuery::Commands(command_completions(input.as_slice()));
    }
    let load = chars_of("load");
    if !range_equals(cs.as_slice(), start, word_end, load.as_slice()) {
        return CompletionQuery::Nothing;
    }
    let arg_start = skip_ws_index(cs.as_slice(), word_end, len);
    let quoted = arg_start < len && cs[arg_start] == '"';
    let path_start = if quoted {
        arg_start + 1
    } else {
        arg_start
    };
    proof {
        let argument = cs@.subrange(arg_start as int, len as int);
        if quoted {
            assert(argument[0] == cs@[arg_start as int]);
            assert(argument.drop_first() =~= cs@.subrange(path_start as int, len as int));
        } else if arg_start < len {
            assert(argument[0] == cs@[arg_start as int]);
        }
    }
    let sep = component_start_index(cs.as_slice(), path_start, len);
    let ghost path = cs@.subrange(path_start as int, len as int);
    let prefix = string_from_range(cs.as_slice(), sep, len);
    let directory = if sep == path_start {
        String::from_str(".")
    } else {
        string_from_range(cs.as_slice(), path_start, sep)
    };
    proof {
        assert(cs@.subrange(sep as int, len as int) =~= path.skip(sep - path_start));
        assert(cs@.subrange(path_start as int, sep as int) =~= path.take(sep - path_start));
    }
    CompletionQuery::Directory { directory, prefix, quoted }
}

/// A directory entry offered for completion: its name and whether it is a
/// directory.
#[derive(Clone, Debug)]
pub struct DirEntryInfo {
    pub name: String,
    pub is_dir: bool,
}

/// The index of the last `.` in a name, or -1.
pub open spec fn last_dot(name: Seq<char>) -> int
    decreases name.len(),
{
    if name.len() == 0 {
        -1
    } else if name.last() == '.' {
        name.len() - 1
    } else {
        last_dot(name.drop_last())
    }
}

/// Whether a file name has the extension `js` in any ASCII case (as
/// `Path::extension` finds it: after the last dot, which is not the first
/// character).
pub open spec fn has_js_extension(name: Seq<char>) -> bool {
    last_dot(name) > 0 && eq_ignore_ascii_case(name.skip(last_dot(name) + 1), "js"@)
}

/// What an entry completes a path component starting with `prefix` to.
pub open spec fn entry_completion(name: Seq<char>, is_dir: bool, prefix: Seq<char>, quoted: bool) -> Option<Seq<char>> {
    if !(is_dir || has_js_extension(name)) {
        None
    } else if name.len() >= prefix.len() && eq_ignore_ascii_case(name.take(prefix.len() as int), prefix) {
        Some(
            name.skip(prefix.len() as int) + if quoted && !is_dir {
                "\""@
            } else {
                Seq::empty()
            },
        )
    } else {
        None
    }
}

/// The completions the entries give, in their order.
pub open spec fn entry_completions(entries: Seq<DirEntryInfo>, prefix: Seq<char>, quoted: bool) -> Seq<Seq<char>>
    decreases entries.len(),
{
    if entries.len() == 0 {
        Seq::empty()
    } else {
        let rest = entry_completions(entries.drop_last(), prefix, quoted);
        match entry_completion(entries.last().name@, entries.last().is_dir, prefix, quoted) {
            Some(c) => rest.push(c),
            None => rest,
        }
    }
}

/// The index of the last `.` in `name`, if any.
pub(crate) fn last_dot_index(name: &[char]) -> (r: Option<usize>)
    ensures
        r matches Some(i) ==> i == last_dot(name@) && i < name@.len(),
        r is None ==> last_dot(name@) == -1,
{
    let mut j = name.len();
    assert(name@.take(name@.len() as int) =~= name@);
    while j > 0 && name[j - 1] != '.'
        invariant
            j <= name@.len(),
            last_dot(name@.take(j as int)) == last_dot(name@),
        decreases j,
    {
        assert(name@.take(j as int).drop_last() =~= name@.take(j - 1));
        j = j - 1;
    }
    if j == 0 {
        assert(name@.take(0) =~= Seq::<char>::empty());
        None
    } else {
        assert(name@.take(j as int).last() == name@[j - 1]);
        Some(j - 1)
    }
}

/// Whether a name has the extension `js` in any ASCII case.
fn is_js_name(name: &[char]) -> (js: bool)
    ensures
        js == has_js_extension(name@),
{
    match last_dot_index(name) {
        Some(dot) => {
            if dot == 0 || dot >= name.len() {
                return false;
            }
            let js = chars_of("js");
            let r = range_eq_ignore_ascii_case(name, dot + 1, name.len(), js.as_slice());
            assert(name@.subrange(dot + 1, name@.len() as int) =~= name@.skip(dot + 1));
            r
        },
        None => false,
    }
}

/// The completions a directory listing gives for a path component that
/// starts with `prefix`: directories and `.js` files whose names start
/// with it (ignoring ASCII case), as the rest of their names (closed with
/// a quote for files when the path was quoted), in the order of `String`s.
pub fn path_completions(prefix: &str, quoted: bool, entries: &Vec<DirEntryInfo>) -> (completions: Vec<String>)
    ensures
        texts(completions@) == entry_completions(entries@, prefix@, quoted).sort_by(text_order()),
{
    let p = chars_of(prefix);
    let mut found: Vec<String> = Vec::new();
    let mut i: usize = 0;
    while i < entries.len()
        invariant
            i <= entries@.len(),
            p@ == prefix@,
            texts(found@) == entry_completions(entries@.take(i as int), prefix@, quoted),
        decreases entries@.len() - i,
    {
        proof {
            assert(entries@.take(i + 1).drop_last() =~= entries@.take(i as int));
            assert(entries@.take(i + 1).last() == entries@[i as int]);
        }
        let name = chars_of(entries[i].name.as_str());
        let is_dir = entries[i].is_dir;
        if is_dir || is_js_name(name.as_slice()) {
            if name.len() >= p.len() && range_eq_ignore_ascii_case(name.as_slice(), 0, p.len(), p.as_slice()) {
                let mut rest = string_from_range(name.as_slice(), p.len(), name.len());
                if quoted && !is_dir {
                    rest.append("\"");
                }
                proof {
                    assert(name@.subrange(0, p@.len() as int) =~= name@.take(p@.len() as int));
                    assert(name@.subrange(p@.len() as int, name@.len() as int) =~= name@.skip(p@.len() as int));
                    if !(quoted && !is_dir) {
                        assert(rest@ =~= name@.skip(p@.len() as int) + Seq::<char>::empty());
                    }
                }
                let ghost before = texts(found@);
                found.push(rest);
                assert(texts(found@) =~= before.push(rest@));
            } else {
                proof {
                    if name@.len() >= p@.len() {
                        assert(name@.subrange(0, p@.len() as int) =~= name@.take(p@.len() as int));
                    }
                }
            }
        }
        i = i + 1;
    }
    assert(entries@.take(entries@.len() as int) =~= entries@);
    sort_texts(found)
}

/// Whether `a` and `b` first differ at `i`, where `a` has the smaller
/// character.
pub open spec fn smaller_at(a: Seq<char>, b: Seq<char>, i: int) -> bool {
    &&& 0 <= i < a.len()
    &&& i < b.len()
    &&& forall|j: int| 0 <= j < i ==> a[j] == b[j]
    &&& (a[i] as int) < (b[i] as int)
}

/// Whether `p` is a prefix of `s`.
pub open spec fn is_prefix(p: Seq<char>, s: Seq<char>) -> bool {
    p.len() <= s.len() && s.take(p.len() as int) == p
}

proof fn lemma_prefix_tails(a: Seq<char>, b: Seq<char>)
    requires
        a.len() > 0,
        b.len() > 0,
    ensures
        is_prefix(a, b) <==> (a[0] == b[0] && is_prefix(a.drop_first(), b.drop_first())),
{
    let a2 = a.drop_first();
    let b2 = b.drop_first();
    if is_prefix(a, b) {
        assert(b.take(a.len() as int)[0] == b[0]);
        assert(b2.take(a2.len() as int) =~= a2) by {
            assert forall|j: int| 0 <= j < a2.len() implies b2.take(a2.len() as int)[j] == a2[j] by {
                assert(b.take(a.len() as int)[j + 1] == a[j + 1]);
            }
        }
    }
    if a[0] == b[0] && is_prefix(a2, b2) {
        assert(b.take(a.len() as int) =~= a) by {
            assert forall|j: int| 0 <= j < a.len() implies b.take(a.len() as int)[j] == a[j] by {
                if j > 0 {
                    assert(b2.take(a2.len() as int)[j - 1] == a2[j - 1]);
                }
            }
        }
    }
}

/// Law: texts are ordered as `String`s are: `a` comes no later than `b`
/// exactly when `a` is a prefix of `b` (the empty text first of all), or at
/// the first place where they differ `a` has the smaller character.
pub proof fn law_text_order_is_lexicographic(a: Seq<char>, b: Seq<char>)
    ensures
        text_le(a, b) <==> is_prefix(a, b) || exists|i: int| #[trigger] smaller_at(a, b, i),
    decreases a.len(),
{
    if a.len() == 0 {
        assert(b.take(0) =~= a);
    } else if b.len() == 0 {
        assert forall|i: int| !smaller_at(a, b, i) by {}
    } else {
        lemma_prefix_tails(a, b);
        if a[0] != b[0] {
            if (a[0] as int) < (b[0] as int) {
                assert(smaller_at(a, b, 0));
            } else {
                assert forall|i: int| !smaller_at(a, b, i) by {
                    if smaller_at(a, b, i) && i > 0 {
                        assert(a[0] == b[0]);
                    }
                }
            }
        } else {
            let a2 = a.drop_first();
            let b2 = b.drop_first();
            law_text_order_is_lexicographic(a2, b2);
            if exists|i: int| #[trigger] smaller_at(a2, b2, i) {
                let i = choose|i: int| #[trigger] smaller_at(a2, b2, i);
                assert forall|j: int| 0 <= j < i + 1 implies a[j] == b[j] by {
                    if j > 0 {
                        assert(a2[j - 1] == b2[j - 1]);
                    }
                }
                assert(smaller_at(a, b, i + 1));
            }
            if exists|i: int| #[trigger] smaller_at(a, b, i) {
                let i = choose|i: int| #[trigger] smaller_at(a, b, i);
                assert(i != 0);
                assert forall|j: int| 0 <= j < i - 1 implies a2[j] == b2[j] by {
                    assert(a[j + 1] == b[j + 1]);
                }
                assert(smaller_at(a2, b2, i - 1));
            }
        }
    }
}

/// What a name offers for `input`: the rest of it, if it starts with `input`.
pub open spec fn offered(name: Seq<char>, input: Seq<char>) -> Option<Seq<char>> {
    if is_prefix(input, name) {
        Some(name.skip(input.len() as int))
    } else {
        None
    }
}

proof fn lemma_suffixes_contain_matches(names: Seq<Seq<char>>, input: Seq<char>, i: int)
    requires
        0 <= i < names.len(),
        is_prefix(input, names[i]),
    ensures
        name_suffixes(names, input).contains(names[i].skip(input.len() as int)),
    decreases names.len(),
{
    let init = names.drop_last();
    let rest = name_suffixes(init, input);
    let r = name_suffixes(names, input);
    if i < names.len() - 1 {
        assert(init[i] == names[i]);
        lemma_suffixes_contain_matches(init, input, i);
        let k = choose|k: int| 0 <= k < rest.len() && rest[k] == init[i].skip(input.len() as int);
        if is_prefix(input, names.last()) {
            assert(r[k] == rest[k]);
        }
    } else {
        assert(r[r.len() - 1] == names.last().skip(input.len() as int));
    }
}

proof fn lemma_suffixes_come_from_matches(names: Seq<Seq<char>>, input: Seq<char>, j: int)
    requires
        0 <= j < name_suffixes(names, input).len(),
    ensures
        exists|i: int| 0 <= i < names.len() && #[trigger] offered(names[i], input) == Some(name_suffixes(names, input)[j]),
        name_suffixes(names, input).len() <= names.len(),
    decreases names.len(),
{
    let init = names.drop_last();
    let rest = name_suffixes(init, input);
    let r = name_suffixes(names, input);
    if j < rest.len() {
        lemma_suffixes_come_from_matches(init, input, j);
        assert(r[j] == rest[j]);
        let i = choose|i: int| 0 <= i < init.len() && #[trigger] offered(init[i], input) == Some(rest[j]);
        assert(names[i] == init[i]);
        assert(offered(names[i], input) == Some(r[j]));
    } else {
        let i = names.len() - 1;
        assert(names[i] == names.last());
        assert(offered(names[i], input) == Some(r[j]));
        if rest.len() > 0 {
            lemma_suffixes_come_from_matches(init, input, 0);
        }
    }
}

proof fn lemma_suffixes_of_empty(names: Seq<Seq<char>>)
    ensures
        name_suffixes(names, Seq::empty()) == names,
    decreases names.len(),
{
    if names.len() > 0 {
        let init = names.drop_last();
        lemma_suffixes_of_empty(init);
        assert(names.last().take(0) =~= Seq::<char>::empty());
        assert(names.last().skip(0) =~= names.last());
        assert(names =~= init.push(names.last()));
    }
}

/// Law: completing `input` offers the rest of every name that starts with
/// `input` and nothing else; an empty input offers every name.
pub proof fn law_completions_offer_every_matching_name(names: Seq<Seq<char>>, input: Seq<char>)
    ensures
        forall|i: int|
            0 <= i < names.len() && #[trigger] is_prefix(input, names[i]) ==> name_suffixes(names, input).contains(
                names[i].skip(input.len() as int),
            ),
        forall|j: int|
            0 <= j < name_suffixes(names, input).len() ==> exists|i: int|
                0 <= i < names.len() && #[trigger] offered(names[i], input) == Some(
                    #[trigger] name_suffixes(names, input)[j],
                ),
        input.len() == 0 ==> name_suffixes(names, input) == names,
{
    assert forall|i: int| 0 <= i < names.len() && #[trigger] is_prefix(input, names[i]) implies name_suffixes(
        names,
        input,
    ).contains(names[i].skip(input.len() as int)) by {
        lemma_suffixes_contain_matches(names, input, i);
    }
    assert forall|j: int| 0 <= j < name_suffixes(names, input).len() implies exists|i: int|
        0 <= i < names.len() && #[trigger] offered(names[i], input) == Some(
            #[trigger] name_suffixes(names, input)[j],
        ) by {
        lemma_suffixes_come_from_matches(names, input, j);
    }
    if input.len() == 0 {
        assert(input =~= Seq::<char>::empty());
        lemma_suffixes_of_empty(names);
    }
}

/// Law: Tab on an empty console line offers every command.
pub proof fn law_empty_line_offers_every_command()
    ensures
        name_suffixes(command_names(), Seq::empty()) == command_names(),
{
    lemma_suffixes_of_empty(command_names());
}

} // verus!

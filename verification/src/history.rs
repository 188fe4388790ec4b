use vstd::prelude::*;
use crate::app::texts;
use crate::lines::{lemma_lines_of_line_then, lemma_lines_of_single, lines_of, split_lines};
use crate::text::{ascii_lower, char_ascii_lower, chars_equal, chars_of, skip_ws_index, trim, trim_end_index};

verus! {

broadcast use vstd::string::group_string_axioms;

/// The most lines the console keeps in its history.
pub const HISTORY_LIMIT: usize = 500;

/// The most scripts the run history keeps.
pub const SCRIPT_HISTORY_LIMIT: usize = 10;

/// Whether the console records `line` after a history ending in `history`.
pub open spec fn records_line(history: Seq<Seq<char>>, line: Seq<char>) -> bool {
    !(trim(line).len() == 0 || trim(line) == "exit"@ || (history.len() > 0 && history.last() == line))
}

/// `history` with `line` appended and the oldest entry dropped past `limit`.
pub open spec fn appended_bounded(history: Seq<Seq<char>>, line: Seq<char>, limit: nat) -> Seq<Seq<char>> {
    let grown = history.push(line);
    if grown.len() > limit {
        grown.drop_first()
    } else {
        grown
    }
}

/// Whether `line` trims to `exit`.
fn trims_to_exit(line: &str) -> (b: bool)
    ensures
        b == (trim(line@) == "exit"@),
{
    let cs = chars_of(line);
    let start = skip_ws_index(cs.as_slice(), 0, cs.len());
    let end = trim_end_index(cs.as_slice(), start, cs.len());
    proof {
        assert(cs@.subrange(0, cs@.len() as int) == line@);
    }
    let exit = chars_of("exit");
    crate::text::range_equals(cs.as_slice(), start, end, exit.as_slice())
}

/// Whether `line` is blank.
fn is_blank(line: &str) -> (b: bool)
    ensures
        b == (trim(line@).len() == 0),
{
    let cs = chars_of(line);
    let start = skip_ws_index(cs.as_slice(), 0, cs.len());
    let end = trim_end_index(cs.as_slice(), start, cs.len());
    proof {
        assert(cs@.subrange(0, cs@.len() as int) == line@);
    }
    start == end
}

/// Records a submitted console line: blank lines, `exit` and an immediate
/// repeat of the last entry are not recorded; the history keeps at most
/// [`HISTORY_LIMIT`] lines, dropping the oldest. Returns whether it changed.
pub fn push_history(history: &mut Vec<String>, line: &str) -> (recorded: bool)
    ensures
        recorded == records_line(texts(old(history)@), line@),
        recorded ==> texts(final(history)@) == appended_bounded(texts(old(history)@), line@, HISTORY_LIMIT as nat),
        !recorded ==> final(history)@ == old(history)@,
{
    let ghost before = texts(history@);
    if is_blank(line) || trims_to_exit(line) {
        return false;
    }
    if history.len() > 0 {
        let last = chars_of(history[history.len() - 1].as_str());
        let current = chars_of(line);
        if chars_equal(last.as_slice(), current.as_slice()) {
            assert(before.last() == line@);
            return false;
        }
        assert(before.last() != line@);
    }
    history.push(String::from_str(line));
    assert(texts(history@) == before.push(line@));
    if history.len() > HISTORY_LIMIT {
        history.remove(0);
        assert(texts(history@) == before.push(line@).drop_first());
    }
    true
}

/// Whether a stored console history line is kept when loading.
pub open spec fn kept_on_load(line: Seq<char>) -> bool {
    line.len() > 0 && trim(line) != "exit"@
}

/// The console history held in `contents`: its lines, without empty ones
/// and without `exit`.
pub fn history_from_contents(contents: &str) -> (history: Vec<String>)
    ensures
        texts(history@) == lines_of(contents@).filter(|l: Seq<char>| kept_on_load(l)),
{
    let lines = split_lines(contents);
    let ghost all = lines@.map_values(|l: String| l@);
    let mut history: Vec<String> = Vec::new();
    let mut i: usize = 0;
    while i < lines.len()
        invariant
            i <= lines@.len(),
            all == lines@.map_values(|l: String| l@),
            texts(history@) == all.take(i as int).filter(|l: Seq<char>| kept_on_load(l)),
        decreases lines@.len() - i,
    {
        let ghost before = texts(history@);
        proof {
            reveal(Seq::filter);
            assert(all.take(i + 1).drop_last() == all.take(i as int));
            assert(all.take(i + 1).last() == lines@[i as int]@);
        }
        if !lines[i].as_str().is_empty() && !trims_to_exit(lines[i].as_str()) {
            history.push(lines[i].clone());
            assert(texts(history@) == before.push(lines@[i as int]@));
        }
        i = i + 1;
    }
    assert(all.take(lines@.len() as int) == all);
    history
}

/// The text a history file holds: the entries joined by `'\n'`.
pub open spec fn joined_lines(entries: Seq<Seq<char>>) -> Seq<char>
    decreases entries.len(),
{
    if entries.len() == 0 {
        Seq::empty()
    } else if entries.len() == 1 {
        entries[0]
    } else {
        joined_lines(entries.drop_last()) + "\n"@ + entries.last()
    }
}

/// Joins `entries` with `'\n'` (`[String]::join("\n")`).
pub fn join_lines(entries: &[String]) -> (text: String)
    ensures
        text@ == joined_lines(texts(entries@)),
{
    let mut text = String::new();
    let mut i: usize = 0;
    while i < entries.len()
        invariant
            i <= entries@.len(),
            text@ == joined_lines(texts(entries@).take(i as int)),
        decreases entries@.len() - i,
    {
        let ghost all = texts(entries@);
        proof {
            assert(all.take(i + 1).drop_last() == all.take(i as int));
            assert(all.take(i + 1).last() == entries@[i as int]@);
        }
        if i > 0 {
            text.append("\n");
        }
        text.append(entries[i].as_str());
        proof {
            if i == 0 {
                assert(text@ == all.take(1)[0]);
            }
        }
        i = i + 1;
    }
    assert(texts(entries@).take(entries@.len() as int) == texts(entries@));
    text
}

/// Whether `c` separates path components (Windows takes both slashes).
pub open spec fn is_separator(c: char) -> bool {
    c == '/' || c == '\\'
}

/// Whether `c` is an ASCII letter.
pub open spec fn is_ascii_letter(c: char) -> bool {
    ('a' <= c <= 'z') || ('A' <= c <= 'Z')
}

/// Whether `s` starts with a drive prefix such as `C:`.
pub open spec fn has_drive(s: Seq<char>) -> bool {
    s.len() >= 2 && is_ascii_letter(s[0]) && s[1] == ':'
}

/// A finished component, kept unless it is empty or a `.` that is not the
/// first component.
pub open spec fn kept_component(piece: Seq<char>, first: bool) -> Seq<Seq<char>> {
    if piece.len() > 0 && (piece != "."@ || first) {
        seq![piece]
    } else {
        Seq::empty()
    }
}

/// Reading a path text left to right: the components finished so far, the
/// one being read, and whether it is the first.
pub open spec fn component_scan(s: Seq<char>) -> (Seq<Seq<char>>, Seq<char>, bool)
    decreases s.len(),
{
    if s.len() == 0 {
        (Seq::empty(), Seq::empty(), true)
    } else {
        let (done, current, first) = component_scan(s.drop_last());
        if is_separator(s.last()) {
            (done + kept_component(current, first), Seq::empty(), false)
        } else {
            (done, current.push(s.last()), first)
        }
    }
}

/// The components of a path text after its drive prefix: empty components
/// and `.` components other than a leading one are left out.
pub open spec fn components(s: Seq<char>) -> Seq<Seq<char>> {
    let (done, current, first) = component_scan(s);
    done + kept_component(current, first)
}

/// What two paths are compared by, as Windows paths compare: the drive letter
/// of a `X:` prefix in either case, whether the path is rooted, and its
/// components. Network and verbatim prefixes are read as plain components.
pub open spec fn path_key(s: Seq<char>) -> (Option<char>, bool, Seq<Seq<char>>) {
    let rest = if has_drive(s) { s.skip(2) } else { s };
    (
        if has_drive(s) { Some(ascii_lower(s[0])) } else { None },
        rest.len() > 0 && is_separator(rest[0]),
        components(rest),
    )
}

/// Whether two path texts name the same path.
pub open spec fn same_path(a: Seq<char>, b: Seq<char>) -> bool {
    path_key(a) == path_key(b)
}

/// The components of `s[from..]` as character vectors.
pub(crate) fn split_components(s: &[char], from: usize) -> (parts: Vec<Vec<char>>)
    requires
        from <= s@.len(),
    ensures
        parts@.map_values(|v: Vec<char>| v@) == components(s@.skip(from as int)),
{
    let ghost rest = s@.skip(from as int);
    let mut done: Vec<Vec<char>> = Vec::new();
    let mut current: Vec<char> = Vec::new();
    let mut first = true;
    let mut i = from;
    while i < s.len()
        invariant
            from <= i <= s@.len(),
            rest == s@.skip(from as int),
            (done@.map_values(|v: Vec<char>| v@), current@, first) == component_scan(rest.take(i - from)),
        decreases s@.len() - i,
    {
        proof {
            assert(rest.take(i - from + 1).drop_last() == rest.take(i - from));
            assert(rest.take(i - from + 1).last() == s@[i as int]);
        }
        let c = s[i];
        if c == '/' || c == '\\' {
            let ghost before = done@.map_values(|v: Vec<char>| v@);
            let dot = current.len() == 1 && current[0] == '.';
            if current.len() > 0 && (!dot || first) {
                proof {
                    if current@ == "."@ {
                        reveal_strlit(".");
                    }
                    assert(current@ != "."@ || first) by {
                        reveal_strlit(".");
                        if current@ == "."@ {
                            assert(current@.len() == 1 && current@[0] == '.');
                        }
                    }
                }
                done.push(current);
                assert(done@.map_values(|v: Vec<char>| v@) == before + seq![current@]);
            } else {
                proof {
                    reveal_strlit(".");
                    if current@.len() > 0 && !first {
                        assert(current@ =~= "."@);
                    }
                }
                assert(done@.map_values(|v: Vec<char>| v@) == before);
            }
            current = Vec::new();
            first = false;
        } else {
            current.push(c);
        }
        i = i + 1;
    }
    assert(rest.take(i - from) == rest);
    let ghost before = done@.map_values(|v: Vec<char>| v@);
    let dot = current.len() == 1 && current[0] == '.';
    if current.len() > 0 && (!dot || first) {
        proof {
            reveal_strlit(".");
            if current@ == "."@ {
                assert(current@.len() == 1 && current@[0] == '.');
            }
        }
        done.push(current);
        assert(done@.map_values(|v: Vec<char>| v@) == before + seq![current@]);
    } else {
        proof {
            reveal_strlit(".");
            if current@.len() > 0 && !first {
                assert(current@ =~= "."@);
            }
        }
        assert(done@.map_values(|v: Vec<char>| v@) == before + Seq::<Seq<char>>::empty());
    }
    done
}

/// Whether two lists of components are equal.
fn components_equal(a: &Vec<Vec<char>>, b: &Vec<Vec<char>>) -> (eq: bool)
    ensures
        eq == (a@.map_values(|v: Vec<char>| v@) == b@.map_values(|v: Vec<char>| v@)),
{
    let ghost av = a@.map_values(|v: Vec<char>| v@);
    let ghost bv = b@.map_values(|v: Vec<char>| v@);
    if a.len() != b.len() {
        assert(av.len() != bv.len());
        return false;
    }
    let mut i: usize = 0;
    while i < a.len()
        invariant
            i <= a@.len(),
            a@.len() == b@.len(),
            av == a@.map_values(|v: Vec<char>| v@),
            bv == b@.map_values(|v: Vec<char>| v@),
            forall|j: int| 0 <= j < i ==> av[j] == bv[j],
        decreases a@.len() - i,
    {
        if !chars_equal(a[i].as_slice(), b[i].as_slice()) {
            assert(av[i as int] != bv[i as int]);
            return false;
        }
        i = i + 1;
    }
    assert(av =~= bv);
    true
}

/// Whether two path texts name the same path (see [`path_key`]).
pub fn same_path_text(a: &[char], b: &[char]) -> (same: bool)
    ensures
        same == same_path(a@, b@),
{
    let a_drive = a.len() >= 2 && (('a' <= a[0] && a[0] <= 'z') || ('A' <= a[0] && a[0] <= 'Z')) && a[1] == ':';
    let b_drive = b.len() >= 2 && (('a' <= b[0] && b[0] <= 'z') || ('A' <= b[0] && b[0] <= 'Z')) && b[1] == ':';
    if a_drive != b_drive {
        return false;
    }
    if a_drive && char_ascii_lower(a[0]) != char_ascii_lower(b[0]) {
        return false;
    }
    let a_from: usize = if a_drive { 2 } else { 0 };
    let b_from: usize = if b_drive { 2 } else { 0 };
    let a_rooted = a.len() > a_from && (a[a_from] == '/' || a[a_from] == '\\');
    let b_rooted = b.len() > b_from && (b[b_from] == '/' || b[b_from] == '\\');
    proof {
        assert(a@.skip(0) == a@);
        assert(b@.skip(0) == b@);
    }
    if a_rooted != b_rooted {
        return false;
    }
    let a_parts = split_components(a, a_from);
    let b_parts = split_components(b, b_from);
    components_equal(&a_parts, &b_parts)
}

/// The run history after running `path`: any earlier entry for the same path
/// removed, `path` appended, and the oldest dropped past
/// [`SCRIPT_HISTORY_LIMIT`].
pub open spec fn recorded(history: Seq<Seq<char>>, path: Seq<char>) -> Seq<Seq<char>> {
    appended_bounded(history.filter(other_than(path)), path, SCRIPT_HISTORY_LIMIT as nat)
}

/// The predicate "does not name the same path as `path`".
pub open spec fn other_than(path: Seq<char>) -> spec_fn(Seq<char>) -> bool {
    |e: Seq<char>| !same_path(e, path)
}

/// Records that `path` was run.
pub fn record(history: &mut Vec<String>, path: String)
    ensures
        texts(final(history)@) == recorded(texts(old(history)@), path@),
{
    let ghost before = texts(history@);
    let target = chars_of(path.as_str());
    let mut kept: Vec<String> = Vec::new();
    let mut i: usize = 0;
    while i < history.len()
        invariant
            i <= history@.len(),
            before == texts(history@),
            target@ == path@,
            texts(kept@) == before.take(i as int).filter(other_than(path@)),
        decreases history@.len() - i,
    {
        proof {
            reveal(Seq::filter);
            assert(before.take(i + 1).drop_last() == before.take(i as int));
            assert(before.take(i + 1).last() == history@[i as int]@);
        }
        let entry = chars_of(history[i].as_str());
        if !same_path_text(entry.as_slice(), target.as_slice()) {
            let ghost k = texts(kept@);
            kept.push(history[i].clone());
            assert(texts(kept@) == k.push(history@[i as int]@));
        }
        i = i + 1;
    }
    assert(before.take(history@.len() as int) == before);
    let ghost filtered = texts(kept@);
    kept.push(path);
    assert(texts(kept@) == filtered.push(path@));
    if kept.len() > SCRIPT_HISTORY_LIMIT {
        kept.remove(0);
        assert(texts(kept@) == filtered.push(path@).drop_first());
    }
    *history = kept;
}

/// Law: after recording `path` the run history ends with `path`, names that
/// path exactly once, stays within [`SCRIPT_HISTORY_LIMIT`] when it was within it,
/// and keeps holding no entry twice.
pub proof fn law_record_keeps_path_last_and_bounded(history: Seq<Seq<char>>, path: Seq<char>)
    ensures
        recorded(history, path).len() > 0,
        recorded(history, path).last() == path,
        history.len() <= SCRIPT_HISTORY_LIMIT ==> recorded(history, path).len() <= SCRIPT_HISTORY_LIMIT,
        forall|i: int| 0 <= i < recorded(history, path).len() - 1 ==> !same_path(#[trigger] recorded(history, path)[i], path),
        history.no_duplicates() ==> recorded(history, path).no_duplicates(),
{
    broadcast use vstd::seq_lib::group_filter_ensures;

    let pred = other_than(path);
    let kept = history.filter(pred);
    let grown = kept.push(path);
    assert forall|i: int| 0 <= i < grown.len() - 1 implies !same_path(grown[i], path) by {
        assert(grown[i] == kept[i]);
        assert(pred(kept[i]));
    }
    if history.no_duplicates() {
        lemma_filter_no_duplicates(history, pred);
        assert(grown.no_duplicates());
    }
    if grown.len() > SCRIPT_HISTORY_LIMIT {
        assert forall|i: int| 0 <= i < grown.drop_first().len() - 1 implies !same_path(grown.drop_first()[i], path) by {
            assert(grown.drop_first()[i] == grown[i + 1]);
        }
        if history.no_duplicates() {
            let d = grown.drop_first();
            assert forall|i: int, j: int| 0 <= i < d.len() && 0 <= j < d.len() && i != j implies d[i] != d[j] by {
                assert(d[i] == grown[i + 1] && d[j] == grown[j + 1]);
            }
        }
    }
}

/// Filtering keeps a sequence free of duplicates.
proof fn lemma_filter_no_duplicates(s: Seq<Seq<char>>, pred: spec_fn(Seq<char>) -> bool)
    requires
        s.no_duplicates(),
    ensures
        s.filter(pred).no_duplicates(),
    decreases s.len(),
{
    reveal(Seq::filter);
    if s.len() > 0 {
        let rest = s.drop_last();
        assert(rest.no_duplicates());
        lemma_filter_no_duplicates(rest, pred);
        if pred(s.last()) {
            broadcast use vstd::seq_lib::group_filter_ensures;

            let f = rest.filter(pred);
            assert forall|i: int| 0 <= i < f.len() implies f[i] != s.last() by {
                if f[i] == s.last() {
                    assert(rest.contains(f[i])) by {
                        lemma_filter_subset(rest, pred, i);
                    }
                }
            }
        }
    }
}

/// Every element of a filtered sequence comes from the sequence.
proof fn lemma_filter_subset(s: Seq<Seq<char>>, pred: spec_fn(Seq<char>) -> bool, i: int)
    requires
        0 <= i < s.filter(pred).len(),
    ensures
        s.contains(s.filter(pred)[i]),
    decreases s.len(),
{
    reveal(Seq::filter);
    broadcast use vstd::seq_lib::group_filter_ensures;

    if s.len() > 0 {
        let rest = s.drop_last();
        let f = rest.filter(pred);
        if i < f.len() {
            lemma_filter_subset(rest, pred, i);
            let j = choose|j: int| 0 <= j < rest.len() && rest[j] == f[i];
            assert(s[j] == rest[j]);
        } else {
            assert(s[s.len() - 1] == s.last());
        }
    }
}

/// The run history after recording each of `paths` in turn onto `history`.
pub open spec fn recorded_all(history: Seq<Seq<char>>, paths: Seq<Seq<char>>) -> Seq<Seq<char>>
    decreases paths.len(),
{
    if paths.len() == 0 {
        history
    } else {
        recorded(recorded_all(history, paths.drop_last()), paths.last())
    }
}

/// Rebuilds the run history from stored paths that still exist, in order.
pub fn history_from_paths(paths: Vec<String>) -> (history: Vec<String>)
    ensures
        texts(history@) == recorded_all(Seq::empty(), texts(paths@)),
        history@.len() <= SCRIPT_HISTORY_LIMIT,
        paths@.len() > 0 ==> history@.len() > 0 && history@.last()@ == paths@.last()@,
{
    let ghost all = texts(paths@);
    let mut history: Vec<String> = Vec::new();
    let mut i: usize = 0;
    while i < paths.len()
        invariant
            i <= paths@.len(),
            all == texts(paths@),
            texts(history@) == recorded_all(Seq::empty(), all.take(i as int)),
            history@.len() <= SCRIPT_HISTORY_LIMIT,
            i > 0 ==> history@.len() > 0 && history@.last()@ == paths@[i - 1]@,
        decreases paths@.len() - i,
    {
        let ghost before = texts(history@);
        record(&mut history, paths[i].clone());
        proof {
            law_record_keeps_path_last_and_bounded(before, paths@[i as int]@);
            assert(all.take(i + 1).drop_last() == all.take(i as int));
            assert(all.take(i + 1).last() == paths@[i as int]@);
        }
        i = i + 1;
    }
    assert(all.take(paths@.len() as int) == all);
    history
}

/// A history line that survives being saved and loaded: kept on load, with
/// no line break in it and no carriage return at its end.
pub open spec fn storable_line(line: Seq<char>) -> bool {
    kept_on_load(line) && !line.contains('\n') && line.last() != '\r'
}

proof fn lemma_joined_front(entries: Seq<Seq<char>>)
    requires
        entries.len() >= 2,
    ensures
        joined_lines(entries) == entries[0] + "\n"@ + joined_lines(entries.drop_first()),
    decreases entries.len(),
{
    let init = entries.drop_last();
    if entries.len() == 2 {
        assert(init.len() == 1);
        assert(joined_lines(init) == init[0]);
        assert(init[0] == entries[0]);
        assert(entries.drop_first().len() == 1);
        assert(joined_lines(entries.drop_first()) == entries.drop_first()[0]);
        assert(entries.drop_first()[0] == entries.last());
    } else {
        lemma_joined_front(init);
        assert(init.drop_first() =~= entries.drop_first().drop_last());
        assert(entries.drop_first().last() == entries.last());
        assert(init[0] == entries[0]);
        assert(joined_lines(entries) == joined_lines(init) + "\n"@ + entries.last());
        assert(joined_lines(entries.drop_first()) == joined_lines(entries.drop_first().drop_last()) + "\n"@
            + entries.last());
        assert(joined_lines(init) == entries[0] + "\n"@ + joined_lines(init.drop_first()));
        assert(entries[0] + "\n"@ + joined_lines(init.drop_first()) + "\n"@ + entries.last() =~= entries[0]
            + "\n"@ + (joined_lines(init.drop_first()) + "\n"@ + entries.last()));
    }
}

proof fn lemma_filter_keeps_all(lines: Seq<Seq<char>>)
    requires
        forall|i: int| 0 <= i < lines.len() ==> kept_on_load(#[trigger] lines[i]),
    ensures
        lines.filter(|l: Seq<char>| kept_on_load(l)) == lines,
    decreases lines.len(),
{
    reveal(Seq::filter);
    if lines.len() > 0 {
        let init = lines.drop_last();
        assert forall|i: int| 0 <= i < init.len() implies kept_on_load(#[trigger] init[i]) by {
            assert(init[i] == lines[i]);
        }
        lemma_filter_keeps_all(init);
        assert(kept_on_load(lines[lines.len() - 1]));
        assert(lines =~= init.push(lines.last()));
    }
}

/// Law: a saved console history loads back as it was: joining storable
/// lines with `'\n'` and reading the text back gives the same lines, the
/// last (unterminated) one included.
pub proof fn law_history_round_trips(history: Seq<Seq<char>>)
    requires
        forall|i: int| 0 <= i < history.len() ==> storable_line(#[trigger] history[i]),
    ensures
        lines_of(joined_lines(history)) == history,
        lines_of(joined_lines(history)).filter(|l: Seq<char>| kept_on_load(l)) == history,
    decreases history.len(),
{
    if history.len() == 1 {
        assert(storable_line(history[0]));
        lemma_lines_of_single(history[0]);
        assert(seq![history[0]] =~= history);
    } else if history.len() >= 2 {
        let rest = history.drop_first();
        assert forall|i: int| 0 <= i < rest.len() implies storable_line(#[trigger] rest[i]) by {
            assert(rest[i] == history[i + 1]);
        }
        law_history_round_trips(rest);
        lemma_joined_front(history);
        assert(storable_line(history[0]));
        lemma_lines_of_line_then(history[0], joined_lines(rest));
        assert(seq![history[0]] + rest =~= history);
    }
    assert forall|i: int| 0 <= i < history.len() implies kept_on_load(#[trigger] history[i]) by {
        assert(storable_line(history[i]));
    }
    lemma_filter_keeps_all(history);
}

} // verus!

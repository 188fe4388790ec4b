use vstd::prelude::*;
use crate::numbers::{hex16_string, hex_padded};
use crate::lines::{lines_of, split_lines};
use crate::text::{chars_equal, chars_of, copy_range, string_from_chars, eq_ignore_ascii_case, range_eq_ignore_ascii_case, range_equals, string_from_range};
use crate::history::{components, has_drive, is_separator, split_components};
use crate::console::completion::{last_dot, last_dot_index};

verus! {

broadcast use vstd::string::group_string_axioms;

/// What separates a module's path from its source version in its name.
pub const SOURCE_VERSION_SEPARATOR: &'static str = "?rev-source=";

/// The refusal for an import that is not relative.
pub const RELATIVE_IMPORTS_ONLY: &'static str = "only relative imports (starting with ./ or ../) are supported";

/// Whether `pat` occurs in `s` at `i`.
pub open spec fn occurs_at(s: Seq<char>, pat: Seq<char>, i: int) -> bool {
    0 <= i && i + pat.len() <= s.len() && s.subrange(i, i + pat.len()) == pat
}

/// The first place at or after `i` where `pat` occurs in `s`, or -1.
pub open spec fn find_from(s: Seq<char>, pat: Seq<char>, i: int) -> int
    decreases s.len() - i,
{
    if i < 0 || i + pat.len() > s.len() {
        -1
    } else if occurs_at(s, pat, i) {
        i
    } else if i >= s.len() {
        -1
    } else {
        find_from(s, pat, i + 1)
    }
}

/// The path part of a module name: what precedes the first version
/// separator, or the whole name.
pub open spec fn source_path_of(name: Seq<char>) -> Seq<char> {
    let at = find_from(name, SOURCE_VERSION_SEPARATOR@, 0);
    if at >= 0 {
        name.take(at)
    } else {
        name
    }
}

/// The path a module name was made from.
pub fn source_path(name: &str) -> (path: String)
    ensures
        path@ == source_path_of(name@),
{
    let cs = chars_of(name);
    let sep = chars_of(SOURCE_VERSION_SEPARATOR);
    let mut i: usize = 0;
    while i < cs.len() && sep.len() <= cs.len() - i
        invariant
            i <= cs@.len(),
            cs@ == name@,
            sep@ == SOURCE_VERSION_SEPARATOR@,
            find_from(cs@, sep@, 0) == find_from(cs@, sep@, i as int),
        decreases cs@.len() - i,
    {
        if range_equals(cs.as_slice(), i, i + sep.len(), sep.as_slice()) {
            proof {
                assert(occurs_at(cs@, sep@, i as int));
            }
            let path = string_from_range(cs.as_slice(), 0, i);
            proof {
                assert(cs@.subrange(0, i as int) =~= cs@.take(i as int));
            }
            return path;
        }
        i = i + 1;
    }
    proof {
        reveal_strlit("?rev-source=");
        assert(find_from(cs@, sep@, i as int) == -1);
    }
    String::from_str(name)
}

/// Whether an import specifier is relative (`./` or `../`).
pub open spec fn is_relative(name: Seq<char>) -> bool {
    (name.len() >= 2 && name.take(2) == "./"@) || (name.len() >= 3 && name.take(3) == "../"@)
}

/// Scripts may only import siblings by relative paths.
pub fn check_relative_import(name: &str) -> (checked: Result<(), String>)
    ensures
        is_relative(name@) ==> checked is Ok,
        !is_relative(name@) ==> (checked matches Err(m) && m@ == RELATIVE_IMPORTS_ONLY@),
{
    let cs = chars_of(name);
    let dot = chars_of("./");
    let dots = chars_of("../");
    let relative = (cs.len() >= 2 && range_equals(cs.as_slice(), 0, 2, dot.as_slice())) || (cs.len() >= 3
        && range_equals(cs.as_slice(), 0, 3, dots.as_slice()));
    proof {
        assert(cs@.subrange(0, 2) =~= cs@.take(2));
        assert(cs@.subrange(0, 3) =~= cs@.take(3));
    }
    if relative {
        Ok(())
    } else {
        Err(String::from_str(RELATIVE_IMPORTS_ONLY))
    }
}

/// The name a module is declared under: its path, the separator, and the
/// hash of its source as sixteen hexadecimal digits, so that an edited file
/// gets a new name.
pub fn versioned_name(path: &str, source_hash: u64) -> (name: String)
    ensures
        name@ == path@ + SOURCE_VERSION_SEPARATOR@ + hex_padded(source_hash as nat, 16),
{
    let mut name = String::from_str(path);
    name.append(SOURCE_VERSION_SEPARATOR);
    let hex = hex16_string(source_hash);
    name.append(hex.as_str());
    name
}

/// Law: a versioned name leads back to its path when the path holds no `?`
/// (file paths do not).
pub proof fn law_versioned_name_keeps_its_path(path: Seq<char>, hex: Seq<char>)
    requires
        !path.contains('?'),
    ensures
        source_path_of(path + SOURCE_VERSION_SEPARATOR@ + hex) == path,
{
    reveal_strlit("?rev-source=");
    let sep = SOURCE_VERSION_SEPARATOR@;
    let name = path + sep + hex;
    assert(occurs_at(name, sep, path.len() as int)) by {
        assert(name.subrange(path.len() as int, path.len() + sep.len() as int) =~= sep);
    }
    lemma_find_before(path, sep, hex, 0);
    assert(name.take(path.len() as int) =~= path);
}

/// Searching `path + sep + rest` finds the separator right after `path`
/// when `path` does not hold the separator's first character.
proof fn lemma_find_before(path: Seq<char>, sep: Seq<char>, rest: Seq<char>, i: int)
    requires
        0 <= i <= path.len(),
        sep.len() > 0,
        !path.contains(sep[0]),
        occurs_at(path + sep + rest, sep, path.len() as int),
    ensures
        find_from(path + sep + rest, sep, i) == path.len(),
    decreases path.len() - i,
{
    let name = path + sep + rest;
    if i < path.len() {
        if occurs_at(name, sep, i) {
            assert(name.subrange(i, i + sep.len())[0] == name[i]);
            assert(name[i] == path[i]);
            assert(path.contains(path[i]));
        }
        lemma_find_before(path, sep, rest, i + 1);
    }
}


/// How many bytes `c` takes in UTF-8.
pub open spec fn utf8_len(c: char) -> nat {
    if (c as u32) < 0x80 {
        1
    } else if (c as u32) < 0x800 {
        2
    } else if (c as u32) < 0x10000 {
        3
    } else {
        4
    }
}

/// How many UTF-16 code units `c` takes.
pub open spec fn utf16_len(c: char) -> nat {
    if (c as u32) < 0x10000 {
        1
    } else {
        2
    }
}

/// The UTF-8 length of a text.
pub open spec fn utf8_total(s: Seq<char>) -> nat
    decreases s.len(),
{
    if s.len() == 0 {
        0
    } else {
        utf8_total(s.drop_last()) + utf8_len(s.last())
    }
}

/// The UTF-16 length of a text.
pub open spec fn utf16_total(s: Seq<char>) -> nat
    decreases s.len(),
{
    if s.len() == 0 {
        0
    } else {
        utf16_total(s.drop_last()) + utf16_len(s.last())
    }
}

/// How many characters of `s` make up exactly its first `bytes` bytes of
/// UTF-8, searching from `k` characters on; none when `bytes` falls inside
/// a character or past the end.
pub open spec fn chars_in_bytes(s: Seq<char>, bytes: nat, k: int) -> Option<int>
    decreases s.len() - k,
{
    if k < 0 || k > s.len() || utf8_total(s.take(k)) > bytes {
        None
    } else if utf8_total(s.take(k)) == bytes {
        Some(k)
    } else if k == s.len() {
        None
    } else {
        chars_in_bytes(s, bytes, k + 1)
    }
}

/// Where a QuickJS stack position (one-based line, one-based UTF-8 byte
/// column) lies in generated code, as a zero-based line and a zero-based
/// UTF-16 column, which is how source maps count.
pub open spec fn generated_position(source: Seq<char>, line: i32, column: i32) -> Option<(u32, u32)> {
    if line <= 0 || column <= 0 || line - 1 >= lines_of(source).len() {
        None
    } else {
        let text = lines_of(source)[line - 1];
        match chars_in_bytes(text, (column - 1) as nat, 0) {
            Some(k) => Some(((line - 1) as u32, utf16_total(text.take(k)) as u32)),
            None => None,
        }
    }
}

proof fn lemma_totals_bounded(s: Seq<char>)
    ensures
        utf16_total(s) <= utf8_total(s),
    decreases s.len(),
{
    if s.len() > 0 {
        lemma_totals_bounded(s.drop_last());
    }
}

/// Finds where a stack position lies in the generated code.
pub fn stack_position(source: &str, line: i32, column: i32) -> (position: Option<(u32, u32)>)
    ensures
        position == generated_position(source@, line, column),
{
    if line <= 0 || column <= 0 {
        return None;
    }
    let lines = split_lines(source);
    let index = (line - 1) as usize;
    if index >= lines.len() {
        proof {
            assert(lines@.map_values(|l: String| l@).len() == lines@.len());
        }
        return None;
    }
    let text = chars_of(lines[index].as_str());
    proof {
        assert(lines@.map_values(|l: String| l@)[index as int] == lines@[index as int]@);
        assert(text@ == lines_of(source@)[line - 1]);
    }
    let limit = (column - 1) as u64;
    let mut bytes: u64 = 0;
    let mut units: u64 = 0;
    let mut k: usize = 0;
    assert(text@.take(0) =~= Seq::<char>::empty());
    while bytes < limit && k < text.len()
        invariant
            k <= text@.len(),
            bytes == utf8_total(text@.take(k as int)),
            units == utf16_total(text@.take(k as int)),
            bytes <= limit,
            limit < 0x8000_0000,
            chars_in_bytes(text@, limit as nat, k as int) == chars_in_bytes(text@, limit as nat, 0),
            line > 0,
            column > 0,
            limit == column - 1,
            line - 1 < lines_of(source@).len(),
            text@ == lines_of(source@)[line - 1],
        decreases text@.len() - k,
    {
        let c = text[k];
        let code = c as u32;
        let width: u64 = if code < 0x80 {
            1
        } else if code < 0x800 {
            2
        } else if code < 0x10000 {
            3
        } else {
            4
        };
        let wide: u64 = if code < 0x10000 {
            1
        } else {
            2
        };
        proof {
            assert(text@.take(k + 1).drop_last() =~= text@.take(k as int));
            assert(text@.take(k + 1).last() == c);
            lemma_totals_bounded(text@.take(k as int));
            assert(chars_in_bytes(text@, limit as nat, k as int) == chars_in_bytes(text@, limit as nat, k + 1));
        }
        bytes = bytes + width;
        units = units + wide;
        k = k + 1;
        if bytes > limit {
            proof {
                assert(chars_in_bytes(text@, limit as nat, k as int) is None);
            }
            return None;
        }
    }
    if bytes < limit {
        proof {
            assert(k == text@.len());
            assert(chars_in_bytes(text@, limit as nat, k as int) is None);
        }
        return None;
    }
    proof {
        assert(chars_in_bytes(text@, limit as nat, k as int) == Some(k as int));
        lemma_totals_bounded(text@.take(k as int));
    }
    Some(((line - 1) as u32, units as u32))
}

/// The file name of a path: its last component, unless that is `.` or `..`
/// or there is none (`Path::file_name`).
pub open spec fn file_name(path: Seq<char>) -> Option<Seq<char>> {
    let rest = if has_drive(path) { path.skip(2) } else { path };
    let parts = components(rest);
    if parts.len() == 0 || parts.last() == "."@ || parts.last() == ".."@ {
        None
    } else {
        Some(parts.last())
    }
}

/// Whether a module path names TypeScript source: its file name's extension
/// (after the last dot, which is not the first character) is `ts` in any
/// ASCII case.
pub open spec fn is_typescript(path: Seq<char>) -> bool {
    file_name(path) matches Some(name) && last_dot(name) > 0 && eq_ignore_ascii_case(
        name.skip(last_dot(name) + 1),
        "ts"@,
    )
}

/// The file name of a path text (see [`file_name`]).
fn file_name_part(s: &[char]) -> (name: Option<Vec<char>>)
    ensures
        match file_name(s@) {
            Some(n) => name matches Some(v) && v@ == n,
            None => name is None,
        },
{
    let drive = s.len() >= 2 && (('a' <= s[0] && s[0] <= 'z') || ('A' <= s[0] && s[0] <= 'Z')) && s[1] == ':';
    let from: usize = if drive { 2 } else { 0 };
    proof {
        assert(s@.skip(0) == s@);
    }
    let mut parts = split_components(s, from);
    let ghost views = parts@.map_values(|v: Vec<char>| v@);
    if parts.len() == 0 {
        return None;
    }
    let dot = chars_of(".");
    let dots = chars_of("..");
    let last = parts.len() - 1;
    assert(parts@[last as int]@ == views.last());
    if chars_equal(parts[last].as_slice(), dot.as_slice()) || chars_equal(parts[last].as_slice(), dots.as_slice()) {
        return None;
    }
    let name = parts.pop();
    name
}

/// Whether the module at `path` is compiled from TypeScript.
pub fn is_typescript_path(path: &str) -> (ts: bool)
    ensures
        ts == is_typescript(path@),
{
    let cs = chars_of(path);
    match file_name_part(cs.as_slice()) {
        Some(name) => {
            let name = name.as_slice();
            match last_dot_index(name) {
                Some(at) => {
                    if at == 0 || at >= name.len() {
                        return false;
                    }
                    let ts = chars_of("ts");
                    let r = range_eq_ignore_ascii_case(name, at + 1, name.len(), ts.as_slice());
                    assert(name@.subrange(at + 1, name@.len() as int) =~= name@.skip(at + 1));
                    r
                },
                None => false,
            }
        },
        None => false,
    }
}

/// The path a relative import resolves to from the module at `base` (see
/// [`import_path_of`]).
pub fn import_path(base: &str, name: &str) -> (path: String)
    ensures
        path@ == import_path_of(base@, name@),
{
    let b = chars_of(base);
    let dir = match parent_len(b.as_slice()) {
        Some(k) => string_from_range(b.as_slice(), 0, k),
        None => String::from_str("."),
    };
    proof {
        reveal_strlit(".");
        assert(b@.subrange(0, b@.len() as int) == b@);
    }
    let joined = join_normalized(dir.as_str(), name);
    let t = chars_of(joined.as_str());
    match file_name_part(t.as_slice()) {
        Some(n) => {
            let n = n.as_slice();
            let no_extension = match last_dot_index(n) {
                Some(d) => d == 0,
                None => true,
            };
            if no_extension && t.len() >= n.len() && range_equals(t.as_slice(), t.len() - n.len(), t.len(), n) {
                assert(t@.subrange(t@.len() - n@.len(), t@.len() as int) == t@.skip(t@.len() - n@.len()));
                let mut out = joined;
                out.append(".js");
                out
            } else {
                proof {
                    if no_extension && t@.len() >= n@.len() {
                        assert(t@.subrange(t@.len() - n@.len(), t@.len() as int) == t@.skip(t@.len() - n@.len()));
                    }
                }
                joined
            }
        },
        None => joined,
    }
}

/// Where the root of a path text ends: after a drive prefix `X:` and one
/// separator following it, if any.
pub open spec fn root_end(t: Seq<char>) -> int {
    let p: int = if has_drive(t) { 2 } else { 0 };
    if t.len() > p && is_separator(t[p]) {
        p + 1
    } else {
        p
    }
}

/// `t` without trailing separators, keeping its first `r` characters.
pub open spec fn trim_separators(t: Seq<char>, r: int) -> Seq<char>
    decreases t.len(),
{
    if t.len() > r && t.len() > 0 && is_separator(t.last()) {
        trim_separators(t.drop_last(), r)
    } else {
        t
    }
}

/// Where the last component of `t` starts: just after its last separator at
/// or beyond `r`, or at `r`.
pub open spec fn last_component_start(t: Seq<char>, r: int) -> int
    decreases t.len(),
{
    if t.len() <= r || t.len() == 0 {
        r
    } else if is_separator(t.last()) {
        t.len() as int
    } else {
        last_component_start(t.drop_last(), r)
    }
}

/// The directory a path text lies in: its last component and the separators
/// around it removed. A path that is empty, a bare drive or a bare root has
/// none.
pub open spec fn parent_of(t: Seq<char>) -> Option<Seq<char>> {
    let r = root_end(t);
    let u = trim_separators(t, r);
    if u.len() <= r {
        None
    } else {
        Some(trim_separators(u.take(last_component_start(u, r)), r))
    }
}

/// `t` with the component `c` added, after a `\` unless `t` is empty, ends
/// with a separator or is a bare drive.
pub open spec fn pushed(t: Seq<char>, c: Seq<char>) -> Seq<char> {
    if t.len() == 0 || is_separator(t.last()) || (has_drive(t) && t.len() == 2) {
        t + c
    } else {
        t + "\\"@ + c
    }
}

/// `t` with its last component removed, or unchanged when it has none.
pub open spec fn popped(t: Seq<char>) -> Seq<char> {
    match parent_of(t) {
        Some(p) => p,
        None => t,
    }
}

/// `dir` with the components `parts` applied in turn: `.` is dropped, `..`
/// goes up one directory, and any other component is added.
pub open spec fn joined_parts(dir: Seq<char>, parts: Seq<Seq<char>>) -> Seq<char>
    decreases parts.len(),
{
    if parts.len() == 0 {
        dir
    } else {
        let t = joined_parts(dir, parts.drop_last());
        let c = parts.last();
        if c == "."@ {
            t
        } else if c == ".."@ {
            popped(t)
        } else {
            pushed(t, c)
        }
    }
}

/// `t` with `.js` added when its file name has no extension.
pub open spec fn with_js_default(t: Seq<char>) -> Seq<char> {
    match file_name(t) {
        Some(n) => if last_dot(n) <= 0 && t.len() >= n.len() && t.skip(t.len() - n.len()) == n {
            t + ".js"@
        } else {
            t
        },
        None => t,
    }
}

/// The path a relative import `name` resolves to from the module at `base`:
/// joined onto `base`'s directory (`.` when it has none), with `.js` added to
/// a file name without an extension.
pub open spec fn import_path_of(base: Seq<char>, name: Seq<char>) -> Seq<char> {
    let dir = match parent_of(base) {
        Some(p) => p,
        None => "."@,
    };
    with_js_default(joined_parts(dir, components(name)))
}

fn is_separator_char(c: char) -> (sep: bool)
    ensures
        sep == is_separator(c),
{
    c == '/' || c == '\\'
}

fn root_end_index(t: &[char]) -> (r: usize)
    ensures
        r as int == root_end(t@),
        r <= t@.len(),
{
    let drive = t.len() >= 2 && (('a' <= t[0] && t[0] <= 'z') || ('A' <= t[0] && t[0] <= 'Z')) && t[1] == ':';
    let p: usize = if drive { 2 } else { 0 };
    if t.len() > p && is_separator_char(t[p]) {
        p + 1
    } else {
        p
    }
}

fn trimmed_len(t: &[char], r: usize, len: usize) -> (n: usize)
    requires
        r <= len <= t@.len(),
    ensures
        r <= n <= len,
        t@.take(n as int) == trim_separators(t@.take(len as int), r as int),
{
    let mut j = len;
    while j > r && is_separator_char(t[j - 1])
        invariant
            r <= j <= len <= t@.len(),
            trim_separators(t@.take(len as int), r as int) == trim_separators(t@.take(j as int), r as int),
        decreases j,
    {
        assert(t@.take(j as int).drop_last() == t@.take(j - 1));
        assert(t@.take(j as int).last() == t@[j - 1]);
        j = j - 1;
    }
    proof {
        if j > r {
            assert(t@.take(j as int).last() == t@[j - 1]);
        }
    }
    j
}

fn component_start_index(t: &[char], r: usize, len: usize) -> (k: usize)
    requires
        r <= len <= t@.len(),
    ensures
        r <= k <= len,
        k as int == last_component_start(t@.take(len as int), r as int),
{
    let mut j = len;
    while j > r && !is_separator_char(t[j - 1])
        invariant
            r <= j <= len <= t@.len(),
            last_component_start(t@.take(len as int), r as int) == last_component_start(t@.take(j as int), r as int),
        decreases j,
    {
        assert(t@.take(j as int).drop_last() == t@.take(j - 1));
        assert(t@.take(j as int).last() == t@[j - 1]);
        j = j - 1;
    }
    proof {
        if j > r {
            assert(t@.take(j as int).last() == t@[j - 1]);
        }
    }
    j
}

/// The length of the directory part of `t` (see [`parent_of`]).
fn parent_len(t: &[char]) -> (n: Option<usize>)
    ensures
        match parent_of(t@) {
            Some(p) => n matches Some(k) && k <= t@.len() && t@.take(k as int) == p,
            None => n is None,
        },
{
    let r = root_end_index(t);
    let u = trimmed_len(t, r, t.len());
    assert(t@.take(t@.len() as int) == t@);
    if u <= r {
        return None;
    }
    let k = component_start_index(t, r, u);
    let n = trimmed_len(t, r, k);
    proof {
        let uu = t@.take(u as int);
        assert(uu.take(k as int) == t@.take(k as int));
    }
    Some(n)
}

/// `t` with the component `c` added (see [`pushed`]).
fn push_component(t: &mut Vec<char>, c: &[char])
    ensures
        final(t)@ == pushed(old(t)@, c@),
{
    let drive_only = t.len() == 2 && (('a' <= t[0] && t[0] <= 'z') || ('A' <= t[0] && t[0] <= 'Z')) && t[1] == ':';
    if !(t.len() == 0 || is_separator_char(t[t.len() - 1]) || drive_only) {
        t.push('\\');
        proof {
            reveal_strlit("\\");
        }
    }
    let ghost before = t@;
    let mut part = copy_range(c, 0, c.len());
    assert(c@.subrange(0, c@.len() as int) == c@);
    t.append(&mut part);
    assert(t@ == before + c@);
}

/// Joins the import `name` onto the directory `dir`: `.` components are
/// dropped, `..` goes up one directory and other components are added.
pub fn join_normalized(dir: &str, name: &str) -> (path: String)
    ensures
        path@ == joined_parts(dir@, components(name@)),
{
    let mut t = chars_of(dir);
    let n = chars_of(name);
    assert(n@.skip(0) == n@);
    let parts = split_components(n.as_slice(), 0);
    let ghost views = parts@.map_values(|v: Vec<char>| v@);
    let dot = chars_of(".");
    let dots = chars_of("..");
    let mut i: usize = 0;
    while i < parts.len()
        invariant
            i <= parts@.len(),
            views == parts@.map_values(|v: Vec<char>| v@),
            views == components(name@),
            dot@ == "."@,
            dots@ == ".."@,
            t@ == joined_parts(dir@, views.take(i as int)),
        decreases parts@.len() - i,
    {
        proof {
            assert(views.take(i + 1).drop_last() == views.take(i as int));
            assert(views.take(i + 1).last() == views[i as int]);
        }
        let c = parts[i].as_slice();
        assert(c@ == views[i as int]);
        if chars_equal(c, dot.as_slice()) {
        } else if chars_equal(c, dots.as_slice()) {
            match parent_len(t.as_slice()) {
                Some(k) => {
                    let ghost before = t@;
                    t = copy_range(t.as_slice(), 0, k);
                    assert(t@ == before.take(k as int));
                },
                None => {},
            }
        } else {
            push_component(&mut t, c);
        }
        i = i + 1;
    }
    assert(views.take(parts@.len() as int) == views);
    string_from_chars(t.as_slice())
}

} // verus!

use vstd::prelude::*;
use crate::text::{chars_of, eq_ignore_ascii_case, range_eq_ignore_ascii_case, range_equals};

verus! {

broadcast use vstd::string::group_string_axioms;

/// The game's executable name.
pub const GAME_EXECUTABLE: &'static str = "Revolution Idle.exe";

/// The window class of console windows, which are never the game.
pub const CONSOLE_WINDOW_CLASS: &'static str = "ConsoleWindowClass";

/// A Windows path separator.
pub open spec fn is_separator(c: char) -> bool {
    c == '/' || c == '\\'
}

/// `path` without a leading drive prefix such as `C:`.
pub open spec fn without_drive(path: Seq<char>) -> Seq<char> {
    if path.len() >= 2 && path[1] == ':' && (('a' <= path[0] <= 'z') || ('A' <= path[0] <= 'Z')) {
        path.subrange(2, path.len() as int)
    } else {
        path
    }
}

/// Where the last component of `s` starts: just after its last separator.
pub open spec fn component_start(s: Seq<char>) -> nat
    decreases s.len(),
{
    if s.len() == 0 {
        0
    } else if is_separator(s.last()) {
        s.len()
    } else {
        component_start(s.drop_last())
    }
}

/// The file name of a path without a drive prefix (`Path::file_name` with
/// Windows separators): trailing separators and `.` components are skipped,
/// and a final `..` has no file name.
pub open spec fn file_name_in(s: Seq<char>) -> Option<Seq<char>>
    decreases s.len(),
{
    if s.len() == 0 {
        None
    } else if is_separator(s.last()) {
        file_name_in(s.drop_last())
    } else {
        let k = component_start(s) as int;
        let component = s.subrange(k, s.len() as int);
        if component == seq!['.'] {
            if k < s.len() {
                file_name_in(s.subrange(0, k))
            } else {
                None
            }
        } else if component == seq!['.', '.'] {
            None
        } else {
            Some(component)
        }
    }
}

/// The file name of a Windows path.
pub open spec fn windows_file_name(path: Seq<char>) -> Option<Seq<char>> {
    file_name_in(without_drive(path))
}

proof fn lemma_component_start(s: Seq<char>)
    ensures
        component_start(s) <= s.len(),
        forall|j: int| component_start(s) <= j < s.len() ==> !is_separator(s[j]),
        component_start(s) > 0 ==> is_separator(s[component_start(s) - 1]),
    decreases s.len(),
{
    if s.len() > 0 && !is_separator(s.last()) {
        lemma_component_start(s.drop_last());
        assert forall|j: int| component_start(s) <= j < s.len() implies !is_separator(s[j]) by {
            if j < s.len() - 1 {
                assert(s[j] == s.drop_last()[j]);
            }
        }
        if component_start(s) > 0 {
            assert(s[component_start(s) - 1] == s.drop_last()[component_start(s) - 1]);
        }
    }
}

proof fn lemma_component_start_at(s: Seq<char>, k: int)
    requires
        0 <= k <= s.len(),
        forall|j: int| k <= j < s.len() ==> !is_separator(s[j]),
        k > 0 ==> is_separator(s[k - 1]),
    ensures
        component_start(s) == k,
    decreases s.len(),
{
    if s.len() > 0 && k < s.len() {
        if k > 0 {
            assert(s.drop_last()[k - 1] == s[k - 1]);
        }
        lemma_component_start_at(s.drop_last(), k);
    }
}

/// Whether `path` names the game's executable, ignoring ASCII case.
pub fn is_game_executable(path: &str) -> (matches: bool)
    ensures
        matches == (windows_file_name(path@) matches Some(name) && eq_ignore_ascii_case(name, GAME_EXECUTABLE@)),
{
    let cs = chars_of(path);
    let n = cs.len();
    let base: usize = if n >= 2 && cs[1] == ':' && (('a' <= cs[0] && cs[0] <= 'z') || ('A' <= cs[0] && cs[0] <= 'Z')) {
        2
    } else {
        0
    };
    assert(cs@.subrange(base as int, n as int) == without_drive(path@));
    let game = chars_of(GAME_EXECUTABLE);
    let dot = chars_of(".");
    let dots = chars_of("..");
    proof {
        reveal_strlit(".");
        reveal_strlit("..");
        assert(dot@ == seq!['.']);
        assert(dots@ == seq!['.', '.']);
    }
    let mut end = n;
    loop
        invariant
            base <= end <= n,
            n == cs@.len(),
            game@ == GAME_EXECUTABLE@,
            dot@ == seq!['.'],
            dots@ == seq!['.', '.'],
            file_name_in(cs@.subrange(base as int, end as int)) == windows_file_name(path@),
        decreases end,
    {
        let ghost end0 = end;
        while end > base && (cs[end - 1] == '/' || cs[end - 1] == '\\')
            invariant
                end <= end0,
                base <= end <= n,
                n == cs@.len(),
                file_name_in(cs@.subrange(base as int, end as int)) == windows_file_name(path@),
            decreases end,
        {
            assert(cs@.subrange(base as int, end as int).drop_last() == cs@.subrange(base as int, end - 1));
            end = end - 1;
        }
        if end == base {
            return false;
        }
        let mut k = end;
        while k > base && !(cs[k - 1] == '/' || cs[k - 1] == '\\')
            invariant
                base <= k <= end <= n,
                n == cs@.len(),
                forall|j: int| k <= j < end ==> !is_separator(cs@[j]),
                end > base,
                !is_separator(cs@[end - 1]),
            decreases k,
        {
            k = k - 1;
        }
        let ghost s = cs@.subrange(base as int, end as int);
        proof {
            assert(!is_separator(s.last()));
            lemma_component_start_at(s, (k - base) as int);
            assert(s.subrange((k - base) as int, s.len() as int) == cs@.subrange(k as int, end as int));
            assert(s.subrange(0, (k - base) as int) == cs@.subrange(base as int, k as int));
        }
        if range_equals(cs.as_slice(), k, end, dot.as_slice()) {
            if k == base {
                proof {
                    let e = s.subrange(0, 0);
                    assert(e.len() == 0);
                    assert(file_name_in(e) == None::<Seq<char>>);
                    assert(s.subrange(0, s.len() as int) == cs@.subrange(k as int, end as int));
                    assert(file_name_in(s) == file_name_in(e));
                }
                return false;
            }
            end = k;
        } else if range_equals(cs.as_slice(), k, end, dots.as_slice()) {
            return false;
        } else {
            return range_eq_ignore_ascii_case(cs.as_slice(), k, end, game.as_slice());
        }
    }
}

/// Whether a window class is the console's, ignoring ASCII case.
pub fn is_console_window_class(class_name: &str) -> (matches: bool)
    ensures
        matches == eq_ignore_ascii_case(class_name@, CONSOLE_WINDOW_CLASS@),
{
    let cs = chars_of(class_name);
    let console = chars_of(CONSOLE_WINDOW_CLASS);
    assert(cs@.subrange(0, cs@.len() as int) == class_name@);
    range_eq_ignore_ascii_case(cs.as_slice(), 0, cs.len(), console.as_slice())
}

/// The single match, or an error naming why there is not exactly one.
pub fn require_exactly_one<T>(matches: Vec<T>) -> (found: Result<T, String>)
    ensures
        matches@.len() == 1 ==> found == Ok::<T, String>(matches@[0]),
        matches@.len() == 0 ==> (found matches Err(e) && e@ == "Revolution Idle window not found"@),
        matches@.len() > 1 ==> (found matches Err(e) && e@ == "multiple Revolution Idle windows found"@),
{
    let mut matches = matches;
    if matches.len() == 0 {
        Err(String::from_str("Revolution Idle window not found"))
    } else if matches.len() == 1 {
        let only = matches.pop();
        match only {
            Some(item) => Ok(item),
            None => Err(String::from_str("Revolution Idle window not found")),
        }
    } else {
        Err(String::from_str("multiple Revolution Idle windows found"))
    }
}

} // verus!

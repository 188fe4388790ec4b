use vstd::prelude::*;
use crate::text::{chars_equal, chars_of};

verus! {

broadcast use vstd::string::group_string_axioms;

/// What Ctrl+C does, given what is running.
#[derive(Clone, Copy, Debug, PartialEq, Eq, Structural)]
pub enum CtrlCAction {
    StopScript,
    StopCapture,
    Ignore,
}

/// Ctrl+C stops a running script first, otherwise an active mouse capture,
/// otherwise nothing.
pub fn ctrl_c_action(script_running: bool, capture_enabled: bool) -> (action: CtrlCAction)
    ensures
        script_running ==> action == CtrlCAction::StopScript,
        !script_running && capture_enabled ==> action == CtrlCAction::StopCapture,
        !script_running && !capture_enabled ==> action == CtrlCAction::Ignore,
{
    if script_running {
        CtrlCAction::StopScript
    } else if capture_enabled {
        CtrlCAction::StopCapture
    } else {
        CtrlCAction::Ignore
    }
}

/// `a`, then `b`, then `c`.
pub fn concat3(a: &str, b: &str, c: &str) -> (s: String)
    ensures
        s@ == a@ + b@ + c@,
{
    let mut s = String::from_str(a);
    s.append(b);
    s.append(c);
    s
}

/// The error text of a unit result, if it failed.
pub open spec fn error_text(r: Result<(), String>) -> Option<Seq<char>> {
    match r {
        Ok(()) => None,
        Err(e) => Some(e@),
    }
}

/// Two outcomes joined: the first error wins alone, the second is reported
/// alone when the first succeeded, and both are joined by `separator`.
pub open spec fn joined_error(first: Option<Seq<char>>, second: Option<Seq<char>>, separator: Seq<char>) -> Option<Seq<char>> {
    match (first, second) {
        (None, None) => None,
        (Some(e), None) => Some(e),
        (None, Some(f)) => Some(f),
        (Some(e), Some(f)) => Some(e + separator + f),
    }
}

/// The result of a shutdown: the selected task's error wins, a cleanup
/// error is reported when the task succeeded, and both are joined when both
/// failed.
pub fn finish_shutdown(selected: Result<(), String>, shutdown: Result<(), String>) -> (result: Result<(), String>)
    ensures
        error_text(result) == joined_error(error_text(selected), error_text(shutdown), "; hotkey shutdown failed: "@),
{
    match (selected, shutdown) {
        (Ok(()), Ok(())) => Ok(()),
        (Err(error), Ok(())) => Err(error),
        (Ok(()), Err(error)) => Err(error),
        (Err(error), Err(shutdown_error)) => Err(
            concat3(error.as_str(), "; hotkey shutdown failed: ", shutdown_error.as_str()),
        ),
    }
}

/// Joins the capture worker's shutdown result onto the overall result the
/// same way, naming the capture worker.
pub fn finish_capture_shutdown(result: Result<(), String>, capture: Result<(), String>) -> (joined: Result<(), String>)
    ensures
        error_text(joined) == joined_error(error_text(result), error_text(capture), "; mouse capture shutdown failed: "@),
{
    match (result, capture) {
        (Ok(()), Ok(())) => Ok(()),
        (Err(error), Ok(())) => Err(error),
        (Ok(()), Err(error)) => Err(error),
        (Err(error), Err(capture_error)) => Err(
            concat3(error.as_str(), "; mouse capture shutdown failed: ", capture_error.as_str()),
        ),
    }
}

/// Flattens a joined task's result: a task that could not be joined fails
/// with the join error's message, otherwise its own result stands.
pub fn task_result(result: Result<Result<(), String>, String>) -> (flat: Result<(), String>)
    ensures
        match result {
            Err(e) => error_text(flat) == Some(e@),
            Ok(inner) => flat == inner,
        },
{
    match result {
        Err(error) => Err(error),
        Ok(inner) => inner,
    }
}

/// The port the client connects to when none is given.
pub const DEFAULT_PORT: u16 = 19841;

/// Command-line options.
#[derive(Clone, Debug, PartialEq, Eq)]
pub struct CliOptions {
    pub initial_path: Option<String>,
    pub port: u16,
    pub non_interactable: bool,
}

/// Whether `c` is an ASCII decimal digit.
pub open spec fn is_digit(c: char) -> bool {
    '0' <= c <= '9'
}

/// The decimal value of a run of digits.
pub open spec fn decimal_value(digits: Seq<char>) -> nat
    decreases digits.len(),
{
    if digits.len() == 0 {
        0
    } else {
        decimal_value(digits.drop_last()) * 10 + ((digits.last() as u32) - ('0' as u32)) as nat
    }
}

/// `u32::from_str`: an optional `+`, then one or more ASCII digits whose value fits.
pub open spec fn parse_u32(s: Seq<char>) -> Option<u32> {
    let digits = unsigned_digits(s);
    if digits.len() > 0 && all_digits(digits) && decimal_value(digits) <= u32::MAX {
        Some(decimal_value(digits) as u32)
    } else {
        None
    }
}

/// The text of an unsigned number after an optional leading `+`.
pub open spec fn unsigned_digits(s: Seq<char>) -> Seq<char> {
    if s.len() > 0 && s[0] == '+' {
        s.drop_first()
    } else {
        s
    }
}

/// Whether every character of `s` is an ASCII digit.
pub open spec fn all_digits(s: Seq<char>) -> bool {
    forall|i: int| 0 <= i < s.len() ==> is_digit(#[trigger] s[i])
}

proof fn lemma_decimal_value_push(digits: Seq<char>, c: char)
    ensures
        decimal_value(digits.push(c)) == decimal_value(digits) * 10 + ((c as u32) - ('0' as u32)) as nat,
{
    assert(digits.push(c).drop_last() == digits);
}

/// Parses decimal text as `u32::from_str` does.
pub fn parse_decimal_u32(s: &str) -> (r: Option<u32>)
    ensures
        r == parse_u32(s@),
{
    let cs = chars_of(s);
    let n = cs.len();
    let start: usize = if n > 0 && cs[0] == '+' { 1 } else { 0 };
    let ghost digits = unsigned_digits(s@);
    assert(digits == cs@.subrange(start as int, n as int));
    if start == n {
        return None;
    }
    let mut value: u64 = 0;
    let mut i = start;
    while i < n
        invariant
            start <= i <= n,
            n == cs@.len(),
            digits == cs@.subrange(start as int, n as int),
            digits == unsigned_digits(s@),
            forall|k: int| start <= k < i ==> is_digit(#[trigger] cs@[k]),
            value == decimal_value(cs@.subrange(start as int, i as int)),
            value <= u32::MAX,
        decreases n - i,
    {
        let c = cs[i];
        if !('0' <= c && c <= '9') {
            proof {
                assert(digits[i - start] == cs@[i as int]);
                assert(!is_digit(digits[i - start]));
                assert(!all_digits(digits));
            }
            return None;
        }
        let d = (c as u32 - '0' as u32) as u64;
        proof {
            assert(cs@.subrange(start as int, i + 1) == cs@.subrange(start as int, i as int).push(c));
            lemma_decimal_value_push(cs@.subrange(start as int, i as int), c);
        }
        if value > (u32::MAX as u64 - d) / 10 {
            proof {
                assert(value * 10 + d > u32::MAX) by (nonlinear_arith)
                    requires
                        value > (u32::MAX as u64 - d) / 10,
                        d <= 9,
                ;
                assert(cs@.subrange(start as int, i + 1) == digits.subrange(0, i + 1 - start));
                if all_digits(digits) {
                    lemma_decimal_monotone(digits, (i + 1 - start) as nat);
                }
            }
            return None;
        }
        value = value * 10 + d;
        i = i + 1;
    }
    proof {
        assert(cs@.subrange(start as int, n as int) == digits);
        assert forall|k: int| 0 <= k < digits.len() implies is_digit(#[trigger] digits[k]) by {
            assert(digits[k] == cs@[start + k]);
        }
    }
    Some(value as u32)
}

/// The outcome of parsing command-line arguments `args[i..]`, given what the
/// arguments before `i` settled.
pub open spec fn cli_from(
    args: Seq<Seq<char>>,
    i: int,
    path: Option<Seq<char>>,
    port: u16,
    non_interactable: bool,
) -> Result<(Option<Seq<char>>, u16, bool), Seq<char>>
    decreases args.len() - i,
{
    if i < 0 || i >= args.len() {
        Ok((path, port, non_interactable))
    } else {
        let a = args[i];
        if a == "--non-interactable"@ {
            cli_from(args, i + 1, path, port, true)
        } else if a == "--port"@ {
            if i + 1 >= args.len() {
                Err("missing value for --port"@)
            } else {
                let v = args[i + 1];
                if v.len() >= 2 && v[0] == '-' && v[1] == '-' {
                    Err("missing value for --port"@)
                } else {
                    match parse_u32(v) {
                        None => Err("invalid port '"@ + v + "'"@),
                        Some(p) => if p == 0 || p > 65535 {
                            Err("port must be between 1 and 65535"@)
                        } else {
                            cli_from(args, i + 2, path, p as u16, non_interactable)
                        },
                    }
                }
            }
        } else if a.len() > 0 && a[0] == '-' {
            Err("unknown argument '"@ + a + "'"@)
        } else if path is None {
            cli_from(args, i + 1, Some(a), port, non_interactable)
        } else {
            Err("unexpected positional argument '"@ + a + "'"@)
        }
    }
}

/// The views of a list of strings.
pub open spec fn texts(args: Seq<String>) -> Seq<Seq<char>> {
    args.map_values(|a: String| a@)
}

/// The text of an optional string.
pub open spec fn opt_text(o: Option<String>) -> Option<Seq<char>> {
    match o {
        Some(p) => Some(p@),
        None => None,
    }
}

/// The view of parsed options.
pub open spec fn options_view(o: CliOptions) -> (Option<Seq<char>>, u16, bool) {
    (opt_text(o.initial_path), o.port, o.non_interactable)
}

/// Parses the command line (`args[0]` is the program name): an optional
/// script path, `--port <1..65535>` (default 19841) and `--non-interactable`.
pub fn parse_cli(args: &[String]) -> (result: Result<CliOptions, String>)
    ensures
        match result {
            Ok(o) => cli_from(texts(args@), 1, None, 19841, false) == Ok::<_, Seq<char>>(options_view(o)),
            Err(e) => cli_from(texts(args@), 1, None, 19841, false) == Err::<(Option<Seq<char>>, u16, bool), _>(e@),
        },
{
    let ghost all = texts(args@);
    let non_interactable_flag = chars_of("--non-interactable");
    let port_flag = chars_of("--port");
    let mut initial_path: Option<String> = None;
    let mut port: u16 = DEFAULT_PORT;
    let mut non_interactable = false;
    let mut i: usize = 1;
    while i < args.len()
        invariant
            all == texts(args@),
            non_interactable_flag@ == "--non-interactable"@,
            port_flag@ == "--port"@,
            1 <= i,
            cli_from(all, i as int, opt_text(initial_path), port, non_interactable) == cli_from(
                all,
                1,
                None,
                19841,
                false,
            ),
        decreases args.len() - i,
    {
        let argument = chars_of(args[i].as_str());
        assert(all[i as int] == argument@);
        if chars_equal(argument.as_slice(), non_interactable_flag.as_slice()) {
            non_interactable = true;
            i = i + 1;
        } else if chars_equal(argument.as_slice(), port_flag.as_slice()) {
            if i + 1 >= args.len() {
                return Err(String::from_str("missing value for --port"));
            }
            let value = chars_of(args[i + 1].as_str());
            assert(all[i + 1] == value@);
            if value.len() >= 2 && value[0] == '-' && value[1] == '-' {
                return Err(String::from_str("missing value for --port"));
            }
            match parse_decimal_u32(args[i + 1].as_str()) {
                None => {
                    return Err(concat3("invalid port '", args[i + 1].as_str(), "'"));
                },
                Some(p) => {
                    if p == 0 || p > 65535 {
                        return Err(String::from_str("port must be between 1 and 65535"));
                    }
                    port = p as u16;
                    i = i + 2;
                },
            }
        } else if argument.len() > 0 && argument[0] == '-' {
            return Err(concat3("unknown argument '", args[i].as_str(), "'"));
        } else if initial_path.is_none() {
            initial_path = Some(args[i].clone());
            i = i + 1;
        } else {
            return Err(concat3("unexpected positional argument '", args[i].as_str(), "'"));
        }
    }
    let options = CliOptions { initial_path, port, non_interactable };
    Ok(options)
}

/// Extending a run of digits never lowers its value.
proof fn lemma_decimal_monotone(digits: Seq<char>, k: nat)
    requires
        k <= digits.len(),
        forall|i: int| 0 <= i < digits.len() ==> is_digit(#[trigger] digits[i]),
    ensures
        decimal_value(digits.subrange(0, k as int)) <= decimal_value(digits),
    decreases digits.len() - k,
{
    if k < digits.len() {
        lemma_decimal_monotone(digits, k + 1);
        let a = digits.subrange(0, k as int);
        let b = digits.subrange(0, k as int + 1);
        assert(b.drop_last() == a);
        assert(decimal_value(b) == decimal_value(a) * 10 + ((b.last() as u32) - ('0' as u32)) as nat);
        assert(decimal_value(a) <= decimal_value(b)) by (nonlinear_arith)
            requires
                decimal_value(b) == decimal_value(a) * 10 + ((b.last() as u32) - ('0' as u32)) as nat,
        ;
    } else {
        assert(digits.subrange(0, k as int) == digits);
    }
}

} // verus!

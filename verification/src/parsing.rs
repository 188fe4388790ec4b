use vstd::prelude::*;
use crate::command::ScriptCommand;
use crate::text::{
    after_first_word, all_whitespace, chars_of, lemma_trim_ignores_surrounding_whitespace, first_word, range_equals, skip_ws, skip_ws_index, string_from_range,
    trim, trim_end_index, word_end_index,
};

verus! {

broadcast use vstd::string::group_string_axioms;

/// The message printed for a line the console does not understand.
pub const USAGE: &'static str = "commands: load <script-path> | reload | resume | capture | clear | exit";

/// The command name of a console line: its first word after trimming.
pub open spec fn line_name(line: Seq<char>) -> Seq<char> {
    first_word(trim(line))
}

/// The argument of a console line: what follows the name, trimmed.
pub open spec fn line_argument(line: Seq<char>) -> Seq<char> {
    trim(after_first_word(trim(line)))
}

/// A `load` argument with one pair of surrounding double quotes removed.
pub open spec fn unquoted(arg: Seq<char>) -> Seq<char> {
    if arg.len() >= 2 && arg[0] == '"' && arg.last() == '"' {
        arg.subrange(1, arg.len() - 1)
    } else {
        arg
    }
}

/// Whether the console accepts `line` as a command.
pub open spec fn line_accepted(line: Seq<char>) -> bool {
    let name = line_name(line);
    let arg = line_argument(line);
    ||| (name == "reload"@ || name == "resume"@ || name == "capture"@ || name == "exit"@) && arg.len()
        == 0
    ||| name == "load"@ && unquoted(arg).len() > 0
}

/// Whether `command` is what `line` asks for.
pub open spec fn command_for_line(command: ScriptCommand, line: Seq<char>) -> bool {
    let name = line_name(line);
    let arg = line_argument(line);
    match command {
        ScriptCommand::Reload => name == "reload"@ && arg.len() == 0,
        ScriptCommand::Resume => name == "resume"@ && arg.len() == 0,
        ScriptCommand::Capture => name == "capture"@ && arg.len() == 0,
        ScriptCommand::Exit => name == "exit"@ && arg.len() == 0,
        ScriptCommand::Load(path) => name == "load"@ && path@ == unquoted(arg) && path@.len() > 0,
        _ => false,
    }
}

/// Parses a console line. `pause` and `stop` are deliberately not commands
/// here: the F8 hotkey and Ctrl+C are the only ways to pause or stop a
/// running script.
pub fn parse_command(line: &str) -> (result: Result<ScriptCommand, String>)
    ensures
        result is Ok <==> line_accepted(line@),
        result matches Ok(command) ==> command_for_line(command, line@),
        result matches Err(message) ==> message@ == USAGE@,
{
    let cs = chars_of(line);
    let n = cs.len();
    let s = cs.as_slice();
    let start = skip_ws_index(s, 0, n);
    let end = trim_end_index(s, start, n);
    let word_end = word_end_index(s, start, end);
    let arg_start = skip_ws_index(s, word_end, end);
    let arg_end = trim_end_index(s, arg_start, end);
    let ghost input = cs@.subrange(start as int, end as int);
    let ghost name = cs@.subrange(start as int, word_end as int);
    let ghost arg = cs@.subrange(arg_start as int, arg_end as int);
    proof {
        assert(cs@.subrange(0, n as int) == line@);
        assert(input == trim(line@));
        assert(name == line_name(line@));
        assert(cs@.subrange(word_end as int, end as int) == after_first_word(input));
        assert(cs@.subrange(arg_start as int, end as int) == skip_ws(after_first_word(input)));
        assert(arg == line_argument(line@));
    }
    let empty_argument = arg_start == arg_end;
    if empty_argument {
        let reload = chars_of("reload");
        if range_equals(s, start, word_end, reload.as_slice()) {
            return Ok(ScriptCommand::Reload);
        }
        let resume = chars_of("resume");
        if range_equals(s, start, word_end, resume.as_slice()) {
            return Ok(ScriptCommand::Resume);
        }
        let capture = chars_of("capture");
        if range_equals(s, start, word_end, capture.as_slice()) {
            return Ok(ScriptCommand::Capture);
        }
        let exit = chars_of("exit");
        if range_equals(s, start, word_end, exit.as_slice()) {
            return Ok(ScriptCommand::Exit);
        }
    }
    let load = chars_of("load");
    if range_equals(s, start, word_end, load.as_slice()) {
        let (path_start, path_end) = if arg_end - arg_start >= 2 && s[arg_start] == '"' && s[arg_end
            - 1] == '"' {
            (arg_start + 1, arg_end - 1)
        } else {
            (arg_start, arg_end)
        };
        proof {
            if arg.len() >= 2 && arg[0] == '"' && arg.last() == '"' {
                assert(cs@.subrange(path_start as int, path_end as int) == arg.subrange(1, arg.len() - 1));
            }
            assert(cs@.subrange(path_start as int, path_end as int) == unquoted(arg));
        }
        if path_start == path_end {
            return Err(String::from_str(USAGE));
        }
        return Ok(ScriptCommand::Load(string_from_range(s, path_start, path_end)));
    }
    Err(String::from_str(USAGE))
}

/// Law: white space around a console line does not change what it parses to.
pub proof fn law_surrounding_whitespace_is_ignored(
    before: Seq<char>,
    line: Seq<char>,
    after: Seq<char>,
    command: ScriptCommand,
)
    requires
        all_whitespace(before),
        all_whitespace(after),
    ensures
        line_accepted(before + line + after) == line_accepted(line),
        command_for_line(command, before + line + after) == command_for_line(command, line),
{
    lemma_trim_ignores_surrounding_whitespace(before, line, after);
}

} // verus!

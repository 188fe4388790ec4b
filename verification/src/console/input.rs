use vstd::prelude::*;
use crate::command::ScriptCommand;
use crate::console::editing::ConsoleEvent;
use crate::parsing::{command_for_line, line_accepted, parse_command, USAGE};
use crate::text::{chars_of, range_equals, skip_ws_index, trim, trim_end_index};

verus! {

broadcast use vstd::string::group_string_axioms;

/// The Backspace key.
pub const VK_BACK: u16 = 0x08;

/// The Tab key.
pub const VK_TAB: u16 = 0x09;

/// The Enter key.
pub const VK_RETURN: u16 = 0x0D;

/// The Up arrow.
pub const VK_UP: u16 = 0x26;

/// The Down arrow.
pub const VK_DOWN: u16 = 0x28;

/// `char::from_u32`: the character with the given code, which exists unless
/// the code is a surrogate or past `char::MAX`.
#[verifier::external_body]
fn char_from_code(code: u32) -> (c: Option<char>)
    ensures
        c matches Some(ch) ==> ch as u32 == code,
        c is None <==> ((0xD800 <= code && code <= 0xDFFF) || code > 0x10FFFF),
{
    char::from_u32(code)
}

/// Whether a character code is a control code (general category Cc).
pub open spec fn is_control_code(code: u32) -> bool {
    code < 0x20 || (0x7F <= code && code <= 0x9F)
}

/// Whether a key record is an editing key, by its virtual key code.
pub open spec fn editing_key(virtual_key: u16) -> Option<ConsoleEvent> {
    if virtual_key == VK_RETURN {
        Some(ConsoleEvent::Enter)
    } else if virtual_key == VK_BACK {
        Some(ConsoleEvent::Backspace)
    } else if virtual_key == VK_UP {
        Some(ConsoleEvent::Up)
    } else if virtual_key == VK_DOWN {
        Some(ConsoleEvent::Down)
    } else if virtual_key == VK_TAB {
        Some(ConsoleEvent::Tab)
    } else {
        None
    }
}

/// Whether a key record types the character `unicode`: a press of a
/// non-editing key whose code is a character and not a control character.
pub open spec fn types_char(key_down: bool, virtual_key: u16, unicode: u16) -> bool {
    key_down && editing_key(virtual_key) is None && !(0xD800 <= unicode && unicode <= 0xDFFF) && !is_control_code(
        unicode as u32,
    )
}

/// Reads a console key record; `None` means the record is skipped.
pub fn console_event(key_down: bool, virtual_key: u16, unicode: u16) -> (event: Option<ConsoleEvent>)
    ensures
        types_char(key_down, virtual_key, unicode) ==> (event matches Some(ConsoleEvent::Char(c)) && c as u32
            == unicode as u32),
        !types_char(key_down, virtual_key, unicode) ==> event == (if key_down {
            editing_key(virtual_key)
        } else {
            None
        }),
{
    if !key_down {
        return None;
    }
    if virtual_key == VK_RETURN {
        return Some(ConsoleEvent::Enter);
    }
    if virtual_key == VK_BACK {
        return Some(ConsoleEvent::Backspace);
    }
    if virtual_key == VK_UP {
        return Some(ConsoleEvent::Up);
    }
    if virtual_key == VK_DOWN {
        return Some(ConsoleEvent::Down);
    }
    if virtual_key == VK_TAB {
        return Some(ConsoleEvent::Tab);
    }
    let code = unicode as u32;
    match char_from_code(code) {
        Some(c) => {
            if code < 0x20 || (0x7F <= code && code <= 0x9F) {
                None
            } else {
                Some(ConsoleEvent::Char(c))
            }
        },
        None => None,
    }
}

/// What the console does with a submitted line.
#[derive(Debug, PartialEq, Eq)]
pub enum Dispatch {
    /// Clear the screen; nothing is sent.
    ClearScreen,
    /// Send the command; `exits` when it is `exit`.
    Send { command: ScriptCommand, exits: bool },
    /// Print the error.
    Complain(String),
}

/// Decides what a submitted line does: `clear` clears the screen locally,
/// anything else is parsed as a command.
pub fn dispatch(line: &str) -> (action: Dispatch)
    ensures
        trim(line@) == "clear"@ ==> action == Dispatch::ClearScreen,
        trim(line@) != "clear"@ && line_accepted(line@) ==> (action matches Dispatch::Send { command, exits }
            && command_for_line(command, line@) && exits == (command is Exit)),
        trim(line@) != "clear"@ && !line_accepted(line@) ==> (action matches Dispatch::Complain(m) && m@ == USAGE@),
{
    let cs = chars_of(line);
    let start = skip_ws_index(cs.as_slice(), 0, cs.len());
    let end = trim_end_index(cs.as_slice(), start, cs.len());
    proof {
        assert(cs@.subrange(0, cs@.len() as int) =~= line@);
    }
    let clear = chars_of("clear");
    if range_equals(cs.as_slice(), start, end, clear.as_slice()) {
        return Dispatch::ClearScreen;
    }
    match parse_command(line) {
        Ok(command) => {
            let exits = match command {
                ScriptCommand::Exit => true,
                _ => false,
            };
            Dispatch::Send { command, exits }
        },
        Err(message) => Dispatch::Complain(message),
    }
}

} // verus!

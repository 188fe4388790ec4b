use vstd::prelude::*;
use crate::pause::{word_paused, ActionGate};
use crate::text::{
    ascii_lower, char_ascii_lower, chars_equal, chars_of, skip_ws_index, string_from_chars, trim, trim_end_index,
};
use crate::window::Axis;

verus! {

broadcast use vstd::string::group_string_axioms;

/// A mouse button a script may click with.
#[derive(Clone, Copy, Debug, PartialEq, Eq, Structural)]
pub enum Button {
    Left,
    Right,
    Middle,
}

/// The button a script names; no name (or `undefined`) means left.
pub open spec fn button_named(name: Option<Seq<char>>) -> Result<Button, Seq<char>> {
    match name {
        None => Ok(Button::Left),
        Some(n) => if n == "left"@ {
            Ok(Button::Left)
        } else if n == "right"@ {
            Ok(Button::Right)
        } else if n == "middle"@ {
            Ok(Button::Middle)
        } else {
            Err("unsupported button: "@ + n)
        },
    }
}

/// The scroll axis a script names; no name (or `undefined`) means vertical.
pub open spec fn axis_named(name: Option<Seq<char>>) -> Result<Axis, Seq<char>> {
    match name {
        None => Ok(Axis::Vertical),
        Some(n) => if n == "vertical"@ || n == "v"@ {
            Ok(Axis::Vertical)
        } else if n == "horizontal"@ || n == "h"@ {
            Ok(Axis::Horizontal)
        } else {
            Err("unsupported scroll axis: "@ + n)
        },
    }
}

/// The text of a result that carries a message on failure.
pub open spec fn message_view<T>(r: Result<T, String>) -> Result<T, Seq<char>> {
    match r {
        Ok(v) => Ok(v),
        Err(e) => Err(e@),
    }
}

/// The texts of a result of strings.
pub open spec fn texts_view(r: Result<String, String>) -> Result<Seq<char>, Seq<char>> {
    match r {
        Ok(v) => Ok(v@),
        Err(e) => Err(e@),
    }
}

/// `prefix` followed by `text`, as a new string.
fn prefixed_message(prefix: &str, text: &str) -> (message: String)
    ensures
        message@ == prefix@ + text@,
{
    let mut message = String::from_str(prefix);
    message.append(text);
    message
}

/// Whether `s` holds exactly the characters of `word`.
fn is_word(s: &[char], word: &str) -> (eq: bool)
    ensures
        eq == (s@ == word@),
{
    let w = chars_of(word);
    chars_equal(s, w.as_slice())
}

/// Reads the button argument of `rev.click`.
pub fn button_from_name(name: Option<&str>) -> (button: Result<Button, String>)
    ensures
        message_view(button) == button_named(match name {
            Some(n) => Some(n@),
            None => None,
        }),
{
    match name {
        None => Ok(Button::Left),
        Some(n) => {
            let cs = chars_of(n);
            if is_word(cs.as_slice(), "left") {
                Ok(Button::Left)
            } else if is_word(cs.as_slice(), "right") {
                Ok(Button::Right)
            } else if is_word(cs.as_slice(), "middle") {
                Ok(Button::Middle)
            } else {
                Err(prefixed_message("unsupported button: ", n))
            }
        },
    }
}

/// Reads the axis argument of `rev.scroll`.
pub fn axis_from_name(name: Option<&str>) -> (axis: Result<Axis, String>)
    ensures
        message_view(axis) == axis_named(match name {
            Some(n) => Some(n@),
            None => None,
        }),
{
    match name {
        None => Ok(Axis::Vertical),
        Some(n) => {
            let cs = chars_of(n);
            if is_word(cs.as_slice(), "vertical") || is_word(cs.as_slice(), "v") {
                Ok(Axis::Vertical)
            } else if is_word(cs.as_slice(), "horizontal") || is_word(cs.as_slice(), "h") {
                Ok(Axis::Horizontal)
            } else {
                Err(prefixed_message("unsupported scroll axis: ", n))
            }
        },
    }
}

/// The named keys `rev.press` accepts besides single letters and digits.
pub open spec fn named_keys() -> Seq<Seq<char>> {
    seq![
        "left"@, "right"@, "up"@, "down"@, "enter"@, "escape"@, "space"@, "tab"@, "backspace"@,
        "f1"@, "f2"@, "f3"@, "f4"@, "f5"@, "f6"@, "f7"@, "f8"@, "f9"@, "f10"@, "f11"@, "f12"@,
    ]
}

/// Whether `c` is an ASCII letter or digit.
pub open spec fn is_ascii_alphanumeric(c: char) -> bool {
    ('a' <= c <= 'z') || ('A' <= c <= 'Z') || ('0' <= c <= '9')
}

/// ASCII lower case of a text (`str::to_ascii_lowercase`).
pub open spec fn lower_text(s: Seq<char>) -> Seq<char> {
    s.map_values(|c: char| ascii_lower(c))
}

/// The key `rev.press` sends for `key`: its ASCII lower case, when that is
/// one letter or digit or a named key.
pub open spec fn pressed_key(key: Seq<char>) -> Result<Seq<char>, Seq<char>> {
    let lower = lower_text(key);
    if (lower.len() == 1 && is_ascii_alphanumeric(lower[0])) || named_keys().contains(lower) {
        Ok(lower)
    } else {
        Err("unsupported key: "@ + lower)
    }
}

/// The key names, as strings.
fn named_key_list() -> (names: Vec<String>)
    ensures
        names@.map_values(|s: String| s@) == named_keys(),
{
    let mut names: Vec<String> = Vec::new();
    names.push(String::from_str("left"));
    names.push(String::from_str("right"));
    names.push(String::from_str("up"));
    names.push(String::from_str("down"));
    names.push(String::from_str("enter"));
    names.push(String::from_str("escape"));
    names.push(String::from_str("space"));
    names.push(String::from_str("tab"));
    names.push(String::from_str("backspace"));
    names.push(String::from_str("f1"));
    names.push(String::from_str("f2"));
    names.push(String::from_str("f3"));
    names.push(String::from_str("f4"));
    names.push(String::from_str("f5"));
    names.push(String::from_str("f6"));
    names.push(String::from_str("f7"));
    names.push(String::from_str("f8"));
    names.push(String::from_str("f9"));
    names.push(String::from_str("f10"));
    names.push(String::from_str("f11"));
    names.push(String::from_str("f12"));
    assert(names@.map_values(|s: String| s@) =~= named_keys());
    names
}

/// Checks the key of `rev.press`, giving the key to send.
pub fn key_for_press(key: &str) -> (pressed: Result<String, String>)
    ensures
        texts_view(pressed) == pressed_key(key@),
{
    let cs = chars_of(key);
    let mut lower: Vec<char> = Vec::new();
    let mut i: usize = 0;
    while i < cs.len()
        invariant
            i <= cs@.len(),
            cs@ == key@,
            lower@ == lower_text(cs@.take(i as int)),
        decreases cs@.len() - i,
    {
        lower.push(char_ascii_lower(cs[i]));
        i = i + 1;
        assert(lower_text(cs@.take(i as int)) =~= lower_text(cs@.take(i - 1)).push(ascii_lower(cs@[i - 1])));
    }
    assert(cs@.take(cs@.len() as int) =~= key@);
    let mut accepted = lower.len() == 1 && (('a' <= lower[0] && lower[0] <= 'z') || ('A' <= lower[0] && lower[0]
        <= 'Z') || ('0' <= lower[0] && lower[0] <= '9'));
    let names = named_key_list();
    let mut k: usize = 0;
    while k < names.len() && !accepted
        invariant
            k <= names@.len(),
            names@.map_values(|s: String| s@) == named_keys(),
            accepted ==> (lower@.len() == 1 && is_ascii_alphanumeric(lower@[0])) || named_keys().contains(lower@),
            !accepted ==> !(lower@.len() == 1 && is_ascii_alphanumeric(lower@[0])) && forall|j: int|
                0 <= j < k ==> named_keys()[j] != lower@,
        decreases names@.len() - k + (if accepted { 0int } else { 1int }),
    {
        let name = chars_of(names[k].as_str());
        if chars_equal(name.as_slice(), lower.as_slice()) {
            assert(named_keys()[k as int] == lower@);
            accepted = true;
        } else {
            k = k + 1;
        }
    }
    let text = string_from_chars(lower.as_slice());
    if accepted {
        Ok(text)
    } else {
        Err(prefixed_message("unsupported key: ", text.as_str()))
    }
}

/// Whether a text is empty once surrounding white space is removed.
fn is_blank(s: &str) -> (blank: bool)
    ensures
        blank == (trim(s@).len() == 0),
{
    let cs = chars_of(s);
    let start = skip_ws_index(cs.as_slice(), 0, cs.len());
    let end = trim_end_index(cs.as_slice(), start, cs.len());
    assert(cs@.subrange(0, cs@.len() as int) =~= s@);
    start == end
}

/// `rev.invoke` refuses a blank button path.
pub fn check_button_path(path: &str) -> (checked: Result<(), String>)
    ensures
        trim(path@).len() == 0 ==> (checked matches Err(m) && m@ == "button name must not be empty"@),
        trim(path@).len() != 0 ==> checked is Ok,
{
    if is_blank(path) {
        Err(String::from_str("button name must not be empty"))
    } else {
        Ok(())
    }
}

/// `rev.transfer` refuses a blank source or destination slot path.
pub fn check_slot_paths(source: &str, destination: &str) -> (checked: Result<(), String>)
    ensures
        (trim(source@).len() == 0 || trim(destination@).len() == 0) ==> (checked matches Err(m) && m@
            == "slot paths must not be empty"@),
        !(trim(source@).len() == 0 || trim(destination@).len() == 0) ==> checked is Ok,
{
    if is_blank(source) || is_blank(destination) {
        Err(String::from_str("slot paths must not be empty"))
    } else {
        Ok(())
    }
}

/// Clicks through `click` at script coordinates, as the production mouse
/// adapter does: one call with the coordinates unchanged.
pub fn click_at_with<C: FnOnce(i32, i32) -> Result<(), String>>(x: i32, y: i32, click: C) -> (result: Result<
    (),
    String,
>)
    requires
        click.requires((x, y)),
    ensures
        click.ensures((x, y), result),
{
    click(x, y)
}

/// Whether a host action goes ahead: while the pause gate is closed, host
/// actions are skipped (as if they succeeded) rather than refused.
pub fn action_allowed(gate: &ActionGate) -> (allowed: bool)
    ensures
        allowed == !word_paused(gate.state),
{
    !gate.is_paused()
}

} // verus!

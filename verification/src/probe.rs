use vstd::prelude::*;
use crate::app::texts;
use crate::text::{chars_equal, chars_of};

verus! {

broadcast use vstd::string::group_string_axioms;

/// `WM_APP`, the first message number free for applications.
pub const WM_APP: u32 = 0x8000;

/// The click message the probe posts: `WM_APP + 0x417`.
pub const INPUT_BRIDGE_MESSAGE: u32 = WM_APP + 0x417;

/// The probe's click position.
pub const CLICK_X: i32 = 1200;

/// The probe's click position.
pub const CLICK_Y: i32 = 80;

/// Packs full-width unsigned coordinates: `y` high, `x` low.
pub fn pack_bridge_coordinates(x: u32, y: u32) -> (packed: i64)
    ensures
        packed as int == crate::window::bridge_input::signed_bits((y as u64 * 0x1_0000_0000 + x as u64) as u64),
{
    let v: u64 = y as u64 * 0x1_0000_0000 + x as u64;
    if v < 0x8000_0000_0000_0000 {
        v as i64
    } else {
        (v as i128 - 0x1_0000_0000_0000_0000i128) as i64
    }
}

/// Whether the probe was asked to focus the game first.
pub fn parse_focus_flag(args: &[String]) -> (focus: bool)
    ensures
        focus == texts(args@).contains("--focus"@),
{
    let flag = chars_of("--focus");
    let mut i: usize = 0;
    while i < args.len()
        invariant
            i <= args@.len(),
            flag@ == "--focus"@,
            forall|j: int| 0 <= j < i ==> texts(args@)[j] != "--focus"@,
        decreases args@.len() - i,
    {
        let arg = chars_of(args[i].as_str());
        if chars_equal(arg.as_slice(), flag.as_slice()) {
            assert(texts(args@)[i as int] == "--focus"@);
            return true;
        }
        i = i + 1;
    }
    proof {
        if texts(args@).contains("--focus"@) {
            let j = choose|j: int| 0 <= j < texts(args@).len() && texts(args@)[j] == "--focus"@;
            assert(false);
        }
    }
    false
}

/// The probe's verdict on the foreground window around an unfocused click:
/// the game must not have come to the foreground because of it.
pub fn check_foreground(focus: bool, game_was_foreground: bool, game_is_foreground: bool) -> (checked: Result<(), String>)
    ensures
        checked is Err <==> (!focus && !game_was_foreground && game_is_foreground),
        checked matches Err(e) ==> e@ == "game became foreground unexpectedly"@,
{
    if !focus && !game_was_foreground && game_is_foreground {
        return Err(String::from_str("game became foreground unexpectedly"));
    }
    Ok(())
}

} // verus!

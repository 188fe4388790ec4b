pub mod bridge_input;
pub mod clipboard;
pub mod discovery;
pub mod geometry;

use vstd::prelude::*;

verus! {

/// The direction of a scroll.
#[derive(Clone, Copy, Debug, PartialEq, Eq, Structural)]
pub enum Axis {
    Vertical,
    Horizontal,
}

/// What a script may do to the game window. The platform implementation
/// talks to Win32; tests record the calls instead.
pub trait WindowControl {
    fn resize_client(&self, width: i32, height: i32) -> Result<(), String>;

    fn write_clipboard(&self, text: &str) -> (written: Result<(), String>)
        default_ensures
            written matches Err(e) && e@ == "clipboard writing is not supported"@,
    {
        Err(String::from_str("clipboard writing is not supported"))
    }

    fn read_clipboard(&self) -> (read: Result<String, String>)
        default_ensures
            read matches Err(e) && e@ == "clipboard reading is not supported"@,
    {
        Err(String::from_str("clipboard reading is not supported"))
    }

    fn scroll(&self, x: i32, y: i32, length: i32, axis: Axis) -> (scrolled: Result<(), String>)
        default_ensures
            scrolled matches Err(e) && e@ == "window scrolling is not supported"@,
    {
        Err(String::from_str("window scrolling is not supported"))
    }
}

} // verus!

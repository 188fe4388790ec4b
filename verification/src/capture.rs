use vstd::prelude::*;
use crate::app::concat3;
use crate::bridge::connection::{debug_quoted, debug_text};
use crate::numbers::{decimal_string, decimal_text};

verus! {

/// `WM_LBUTTONDOWN`.
pub const WM_LBUTTONDOWN: u32 = 0x0201;

/// `WM_LBUTTONUP`.
pub const WM_LBUTTONUP: u32 = 0x0202;

/// Width, in client pixels, of the overlay's button row in the bottom-right
/// corner of the game window; lock mode lets clicks there through.
pub const OVERLAY_CONTROLS_WIDTH: i32 = 130;

/// Height, in client pixels, of the overlay's button row.
pub const OVERLAY_CONTROLS_HEIGHT: i32 = 50;

/// A screen point.
#[derive(Clone, Copy, Debug, PartialEq, Eq, Structural)]
pub struct Point {
    pub x: i32,
    pub y: i32,
}

/// Whether mouse capture is armed (the next click in the game is reported).
#[derive(Clone, Copy, Debug, Default)]
pub struct CaptureState {
    pub enabled: bool,
}

impl CaptureState {
    /// Whether capture is armed.
    pub fn is_enabled(&self) -> (enabled: bool)
        ensures
            enabled == self.enabled,
    {
        self.enabled
    }

    /// Arms or disarms capture.
    pub fn set_enabled(&mut self, enabled: bool)
        ensures
            final(self).enabled == enabled,
    {
        self.enabled = enabled;
    }
}

/// Whether lock mode is on (clicks in the game outside the overlay's
/// buttons are swallowed).
#[derive(Clone, Copy, Debug, Default)]
pub struct LockState {
    pub enabled: bool,
}

impl LockState {
    /// Whether lock mode is on.
    pub fn is_enabled(&self) -> (enabled: bool)
        ensures
            enabled == self.enabled,
    {
        self.enabled
    }

    /// Turns lock mode on or off.
    pub fn set_enabled(&mut self, enabled: bool)
        ensures
            final(self).enabled == enabled,
    {
        self.enabled = enabled;
    }
}

/// The low 32 bits of a message's `WPARAM` (`message as u32`).
pub open spec fn message_code(message: u64) -> u64 {
    message % 0x1_0000_0000
}

/// Whether a low-level mouse message is a left button press.
pub fn is_left_button_down(message: u64) -> (down: bool)
    ensures
        down == (message_code(message) == WM_LBUTTONDOWN as u64),
{
    message % 0x1_0000_0000 == WM_LBUTTONDOWN as u64
}

/// Whether a low-level mouse message is a left button release.
pub fn is_left_button_up(message: u64) -> (up: bool)
    ensures
        up == (message_code(message) == WM_LBUTTONUP as u64),
{
    message % 0x1_0000_0000 == WM_LBUTTONUP as u64
}

/// The point of a capture event: an armed capture and a left press.
pub fn capture_event(enabled: bool, message: u64, point: Point) -> (event: Option<Point>)
    ensures
        event == (if enabled && message_code(message) == WM_LBUTTONDOWN as u64 {
            Some(point)
        } else {
            None
        }),
{
    if enabled && is_left_button_down(message) {
        Some(point)
    } else {
        None
    }
}

/// Claims an armed capture for a left press inside the game window,
/// disarming it; any other click leaves it as it is.
pub fn claim_capture(enabled: &mut bool, message: u64, in_bounds: bool) -> (claimed: bool)
    ensures
        claimed == (message_code(message) == WM_LBUTTONDOWN as u64 && in_bounds && *old(enabled)),
        *final(enabled) == (*old(enabled) && !claimed),
{
    if is_left_button_down(message) && in_bounds {
        let was = *enabled;
        *enabled = false;
        was
    } else {
        false
    }
}

/// Whether a client point lies in the overlay's bottom-right button row.
pub open spec fn in_overlay_controls(x: i32, y: i32, width: i32, height: i32) -> bool {
    x >= width - OVERLAY_CONTROLS_WIDTH && y >= height - OVERLAY_CONTROLS_HEIGHT
}

/// Whether `(x, y)` in a client area of `width` x `height` falls in the
/// overlay's button row, which lock mode always lets through.
pub fn within_overlay_controls(x: i32, y: i32, width: i32, height: i32) -> (inside: bool)
    requires
        width >= i32::MIN + OVERLAY_CONTROLS_WIDTH,
        height >= i32::MIN + OVERLAY_CONTROLS_HEIGHT,
    ensures
        inside == in_overlay_controls(x, y, width, height),
{
    x >= width - OVERLAY_CONTROLS_WIDTH && y >= height - OVERLAY_CONTROLS_HEIGHT
}

/// What the mouse hook does with a message.
#[derive(Clone, Copy, Debug, PartialEq, Eq, Structural)]
pub enum MouseAction {
    PassThrough,
    Consume,
    ConsumeAndNotify(Point),
}

/// The hook's own state: whether capture is armed, and whether the press of
/// a captured click is still down (its release must be swallowed too).
#[derive(Clone, Copy, Debug, Default)]
pub struct MouseHookState {
    pub capture_enabled: bool,
    pub left_button_down: bool,
}

/// Whether a client location is one the lock-mode check can be made on.
pub open spec fn location_ok(location: Option<(i32, i32, i32, i32)>) -> bool {
    location matches Some((x, y, w, h)) ==> w >= i32::MIN + OVERLAY_CONTROLS_WIDTH && h >= i32::MIN
        + OVERLAY_CONTROLS_HEIGHT
}

/// The hook's decision and its next state, for a message at `point` whose
/// client location (x, y, width, height) is known when it lies in the game.
pub open spec fn mouse_decision(
    state: MouseHookState,
    message: u64,
    point: Point,
    location: Option<(i32, i32, i32, i32)>,
    lock_enabled: bool,
) -> (MouseHookState, MouseAction) {
    let down = message_code(message) == WM_LBUTTONDOWN as u64;
    let up = message_code(message) == WM_LBUTTONUP as u64;
    if up && state.left_button_down {
        (MouseHookState { left_button_down: false, ..state }, MouseAction::Consume)
    } else if (down || up) && lock_enabled && (location matches Some((x, y, w, h)) && !in_overlay_controls(
        x,
        y,
        w,
        h,
    )) {
        (state, MouseAction::Consume)
    } else if down && location is Some && state.capture_enabled {
        (
            MouseHookState { capture_enabled: false, left_button_down: true },
            MouseAction::ConsumeAndNotify(point),
        )
    } else {
        (state, MouseAction::PassThrough)
    }
}

/// Decides what the low-level mouse hook does: the release of a captured
/// press is swallowed; in lock mode presses and releases inside the game
/// outside the overlay's buttons are swallowed; an armed capture claims a
/// press inside the game and reports it; everything else passes through.
pub fn decide_mouse_action(
    state: &mut MouseHookState,
    message: u64,
    point: Point,
    location: Option<(i32, i32, i32, i32)>,
    lock_enabled: bool,
) -> (action: MouseAction)
    requires
        location_ok(location),
    ensures
        (*final(state), action) == mouse_decision(*old(state), message, point, location, lock_enabled),
{
    if is_left_button_up(message) && state.left_button_down {
        state.left_button_down = false;
        return MouseAction::Consume;
    }
    if (is_left_button_down(message) || is_left_button_up(message)) && lock_enabled {
        match location {
            Some((x, y, width, height)) => {
                if !within_overlay_controls(x, y, width, height) {
                    return MouseAction::Consume;
                }
            },
            None => {},
        }
    }
    if claim_capture(&mut state.capture_enabled, message, location.is_some()) {
        state.left_button_down = true;
        return MouseAction::ConsumeAndNotify(point);
    }
    MouseAction::PassThrough
}

/// Law: a captured press is reported once, disarms capture, and its release
/// is swallowed even after capture has been turned off.
pub proof fn law_captured_press_swallows_its_release(
    state: MouseHookState,
    point: Point,
    location: (i32, i32, i32, i32),
    release: Option<(i32, i32, i32, i32)>,
    lock_enabled: bool,
)
    requires
        state.capture_enabled,
        !state.left_button_down,
        !(lock_enabled && !in_overlay_controls(location.0, location.1, location.2, location.3)),
    ensures
        ({
            let (after_press, press) = mouse_decision(state, WM_LBUTTONDOWN as u64, point, Some(location), lock_enabled);
            let (after_release, released) = mouse_decision(
                MouseHookState { capture_enabled: false, ..after_press },
                WM_LBUTTONUP as u64,
                point,
                release,
                lock_enabled,
            );
            &&& press == MouseAction::ConsumeAndNotify(point)
            &&& !after_press.capture_enabled
            &&& released == MouseAction::Consume
            &&& !after_release.left_button_down
        }),
{
}

/// Law: a click outside the game window (no client location) never claims
/// or disarms the capture.
pub proof fn law_click_outside_game_keeps_capture(
    state: MouseHookState,
    message: u64,
    point: Point,
    lock_enabled: bool,
)
    ensures
        mouse_decision(state, message, point, None, lock_enabled).0.capture_enabled == state.capture_enabled,
        mouse_decision(state, message, point, None, lock_enabled).1 != MouseAction::ConsumeAndNotify(point),
{
}

/// Law: in lock mode a press inside the game but outside the overlay's
/// buttons never reaches the game, and the lock does not swallow presses on
/// the buttons.
pub proof fn law_lock_swallows_clicks_outside_overlay(
    state: MouseHookState,
    point: Point,
    x: i32,
    y: i32,
    width: i32,
    height: i32,
)
    requires
        !state.capture_enabled,
    ensures
        !in_overlay_controls(x, y, width, height) ==> mouse_decision(
            state,
            WM_LBUTTONDOWN as u64,
            point,
            Some((x, y, width, height)),
            true,
        ).1 == MouseAction::Consume,
        in_overlay_controls(x, y, width, height) ==> mouse_decision(
            state,
            WM_LBUTTONDOWN as u64,
            point,
            Some((x, y, width, height)),
            true,
        ).1 == MouseAction::PassThrough,
{
}


/// The thread message that carries a captured click to the capture thread.
pub const CAPTURE_MESSAGE: u32 = 0x8001;

/// Whether the hook needs the click's place in the game window: only for
/// left presses and releases, and only while capture or lock mode is on.
pub fn needs_location(message: u64, capture_enabled: bool, lock_enabled: bool) -> (needed: bool)
    ensures
        needed == ((message_code(message) == WM_LBUTTONDOWN as u64 || message_code(message) == WM_LBUTTONUP as u64)
            && (capture_enabled || lock_enabled)),
{
    (is_left_button_down(message) || is_left_button_up(message)) && (capture_enabled || lock_enabled)
}

/// The `WPARAM` and `LPARAM` a captured click is posted with: x as its
/// 32-bit pattern, y sign-extended.
pub fn capture_message_params(point: Point) -> (params: (u64, i64))
    ensures
        params.0 == (point.x as u32) as u64,
        params.1 == point.y as i64,
{
    ((point.x as u32) as u64, point.y as i64)
}

/// The click a capture message carries.
pub fn capture_message_point(wparam: u64, lparam: i64) -> (point: Point)
    ensures
        point.x == (wparam as u32) as i32,
        point.y == lparam as i32,
{
    Point { x: (wparam as u32) as i32, y: lparam as i32 }
}

/// Law: a captured click survives the trip through the thread message.
pub proof fn law_capture_message_round_trip(x: i32, y: i32)
    ensures
        ((((x as u32) as u64) as u32) as i32) == x,
        ((y as i64) as i32) == y,
{
    assert(((((x as u32) as u64) as u32) as i32) == x) by (bit_vector);
    assert(((y as i64) as i32) == y) by (bit_vector);
}

/// What the bridge said about the UI element under a captured click.
#[derive(Debug)]
pub enum UiLookup {
    Found { target_type: Option<String>, path: Option<String> },
    Failed(String),
}

/// The button or slot path a lookup found, which is copied to the clipboard.
pub open spec fn copied_target(lookup: UiLookup) -> Option<(Seq<char>, Seq<char>)> {
    match lookup {
        UiLookup::Found { target_type: Some(t), path: Some(p) } => if t@ == "button"@ || t@ == "slot"@ {
            Some((t@, p@))
        } else {
            None
        },
        _ => None,
    }
}

/// The path to copy to the clipboard for a lookup: a button's or a slot's.
pub fn path_to_copy(lookup: &UiLookup) -> (path: Option<String>)
    ensures
        match copied_target(*lookup) {
            Some((_, p)) => path matches Some(q) && q@ == p,
            None => path is None,
        },
{
    match lookup {
        UiLookup::Found { target_type: Some(t), path: Some(p) } => {
            let button = String::from_str("button");
            let slot = String::from_str("slot");
            if *t == button || *t == slot {
                Some(p.clone())
            } else {
                None
            }
        },
        _ => None,
    }
}

/// The start of every line about a captured click.
pub open spec fn click_text(x: i32, y: i32) -> Seq<char> {
    "click: "@ + decimal_text(x as int) + ", "@ + decimal_text(y as int)
}

/// The lines printed about a captured click: where it was, what the bridge
/// found there, and whether its path was copied.
pub open spec fn capture_lines(x: i32, y: i32, lookup: UiLookup, copied: Result<(), Seq<char>>) -> Seq<Seq<char>> {
    match lookup {
        UiLookup::Failed(e) => seq![click_text(x, y) + "; lookup failed: "@ + e@],
        _ => match copied_target(lookup) {
            Some((t, p)) => match copied {
                Ok(()) => seq![click_text(x, y) + "; "@ + t + ": "@ + debug_text(p), "Copied to clipboard"@],
                Err(e) => seq![click_text(x, y) + "; "@ + t + ": "@ + debug_text(p) + "; clipboard write failed: "@ + e],
            },
            None => seq![click_text(x, y)],
        },
    }
}

/// The error text of a unit result.
pub open spec fn unit_text(r: Result<(), String>) -> Result<(), Seq<char>> {
    match r {
        Ok(()) => Ok(()),
        Err(e) => Err(e@),
    }
}

/// Describes a captured click; `copied` is how copying the path went (it
/// is only looked at when there was a path to copy).
pub fn describe_capture(x: i32, y: i32, lookup: &UiLookup, copied: Result<(), String>) -> (lines: Vec<String>)
    ensures
        crate::app::texts(lines@) == capture_lines(x, y, *lookup, unit_text(copied)),
{
    let xs = decimal_string(x as i64);
    let ys = decimal_string(y as i64);
    let head = concat3("click: ", xs.as_str(), ", ");
    let mut click = String::from_str(head.as_str());
    click.append(ys.as_str());
    let mut lines: Vec<String> = Vec::new();
    match lookup {
        UiLookup::Failed(error) => {
            click.append("; lookup failed: ");
            click.append(error.as_str());
            lines.push(click);
        },
        UiLookup::Found { .. } => {
            let target = path_to_copy(lookup);
            match target {
                Some(path) => {
                    let kind = match lookup {
                        UiLookup::Found { target_type: Some(t), .. } => t.clone(),
                        _ => String::from_str(""),
                    };
                    let quoted = debug_quoted(path.as_str());
                    click.append("; ");
                    click.append(kind.as_str());
                    click.append(": ");
                    click.append(quoted.as_str());
                    match copied {
                        Ok(()) => {
                            lines.push(click);
                            lines.push(String::from_str("Copied to clipboard"));
                        },
                        Err(error) => {
                            click.append("; clipboard write failed: ");
                            click.append(error.as_str());
                            lines.push(click);
                        },
                    }
                },
                None => {
                    lines.push(click);
                },
            }
        },
    }
    assert(crate::app::texts(lines@) =~= capture_lines(x, y, *lookup, unit_text(copied)));
    lines
}

/// The capture loop's result once the hook was removed: an unhook failure
/// is reported, after the loop's own error when there was one.
pub fn finish_capture_loop(result: Result<(), String>, unhooked: Result<(), String>) -> (finished: Result<(), String>)
    ensures
        unhooked is Ok ==> finished == result,
        unhooked matches Err(e) ==> (result is Ok ==> (finished matches Err(m) && m@ == "UnhookWindowsHookEx failed: "@
            + e@)),
        unhooked matches Err(e) ==> (result matches Err(o) ==> (finished matches Err(m) && m@ == o@
            + "; UnhookWindowsHookEx failed: "@ + e@)),
{
    match unhooked {
        Ok(()) => result,
        Err(error) => match result {
            Ok(()) => {
                let mut message = String::from_str("UnhookWindowsHookEx failed: ");
                message.append(error.as_str());
                Err(message)
            },
            Err(first) => Err(concat3(first.as_str(), "; UnhookWindowsHookEx failed: ", error.as_str())),
        },
    }
}

/// Law: a click on a button or a slot whose path was found copies that path,
/// and the description names the element's type and path and says it was
/// copied; any other element copies nothing and is described by the click
/// alone.
pub proof fn law_buttons_and_slots_are_copied(x: i32, y: i32, target_type: String, path: String)
    ensures
        ({
            let lookup = UiLookup::Found { target_type: Some(target_type), path: Some(path) };
            &&& (target_type@ == "button"@ || target_type@ == "slot"@) ==> copied_target(lookup) == Some(
                (target_type@, path@),
            ) && capture_lines(x, y, lookup, Ok(())) == seq![
                click_text(x, y) + "; "@ + target_type@ + ": "@ + debug_text(path@),
                "Copied to clipboard"@,
            ]
            &&& !(target_type@ == "button"@ || target_type@ == "slot"@) ==> copied_target(lookup) is None
                && capture_lines(x, y, lookup, Ok(())) == seq![click_text(x, y)]
        }),
        copied_target(UiLookup::Found { target_type: None, path: Some(path) }) is None,
        copied_target(UiLookup::Found { target_type: Some(target_type), path: None }) is None,
{
}

} // verus!

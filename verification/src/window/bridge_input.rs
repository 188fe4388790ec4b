use vstd::prelude::*;
use super::Axis;
use crate::numbers::hex_string;
use crate::numbers::hex_text;

verus! {

broadcast use vstd::string::group_string_axioms;

/// The window message that asks the game's input bridge for a click.
pub const INPUT_BRIDGE_MESSAGE: u32 = 0x8417;

/// The window message that asks the input bridge for a scroll.
pub const SCROLL_BRIDGE_MESSAGE: u32 = 0x8418;

/// The window message that starts a drag.
pub const DRAG_START_BRIDGE_MESSAGE: u32 = 0x8419;

/// The window message that ends a drag.
pub const DRAG_END_BRIDGE_MESSAGE: u32 = 0x841A;

/// The 32 bits of `v` read as unsigned (`v as u32`).
pub open spec fn u32_bits(v: i32) -> u64 {
    if v >= 0 {
        v as u64
    } else {
        (v + 0x1_0000_0000) as u64
    }
}

/// `y` in the high and `x` in the low 32 bits of a message parameter.
pub open spec fn packed_coordinates(x: i32, y: i32) -> u64 {
    (u32_bits(y) * 0x1_0000_0000 + u32_bits(x)) as u64
}

/// The signed value with the bits of `v` (`v as i64`).
pub open spec fn signed_bits(v: u64) -> int {
    if v < 0x8000_0000_0000_0000 {
        v as int
    } else {
        v - 0x1_0000_0000_0000_0000
    }
}

fn unsigned_bits(v: i32) -> (r: u64)
    ensures
        r == u32_bits(v),
{
    if v >= 0 {
        v as u64
    } else {
        (v as i64 + 0x1_0000_0000i64) as u64
    }
}

fn as_signed(v: u64) -> (r: i64)
    ensures
        r as int == signed_bits(v),
{
    if v < 0x8000_0000_0000_0000 {
        v as i64
    } else {
        (v as i128 - 0x1_0000_0000_0000_0000i128) as i64
    }
}

/// Packs client coordinates into a message's `LPARAM`: `y` in the high and
/// `x` in the low 32 bits.
pub fn pack_bridge_coordinates(x: i32, y: i32) -> (packed: i64)
    ensures
        packed as int == signed_bits(packed_coordinates(x, y)),
{
    let lo = unsigned_bits(x);
    let hi = unsigned_bits(y);
    as_signed(hi * 0x1_0000_0000 + lo)
}

/// The scroll axis as the bridge codes it.
pub open spec fn axis_code(axis: Axis) -> u64 {
    match axis {
        Axis::Vertical => 0,
        Axis::Horizontal => 1,
    }
}

/// A scroll's `WPARAM`: the low 31 bits of the request id from bit 33 up,
/// the axis in bit 32 and the length's 32 bits below.
pub open spec fn packed_scroll(length: i32, axis: Axis, request_id: u64) -> u64 {
    ((request_id % 0x8000_0000) * 0x2_0000_0000 + axis_code(axis) * 0x1_0000_0000 + u32_bits(length)) as u64
}

/// Packs a scroll's length, axis and request id into its `WPARAM`.
pub fn pack_bridge_scroll(length: i32, axis: Axis, request_id: u64) -> (packed: u64)
    ensures
        packed == packed_scroll(length, axis, request_id),
{
    let code: u64 = match axis {
        Axis::Vertical => 0,
        Axis::Horizontal => 1,
    };
    let id = request_id % 0x8000_0000;
    id * 0x2_0000_0000 + code * 0x1_0000_0000 + unsigned_bits(length)
}

/// A request id mixed from a timestamp and the process id, with the low bit
/// set so that it is never zero.
pub open spec fn mixed_request_id(timestamp_nanos: u128, process_id: u32) -> u64 {
    ((timestamp_nanos % 0x1_0000_0000_0000_0000) as u64 ^ ((process_id as u64) * 0x1_0000_0000) as u64) | 1u64
}

/// Mixes a request id from a timestamp and the process id.
pub fn request_id_from(timestamp_nanos: u128, process_id: u32) -> (id: u64)
    ensures
        id == mixed_request_id(timestamp_nanos, process_id),
        id % 2 == 1,
{
    let t = (timestamp_nanos % 0x1_0000_0000_0000_0000) as u64;
    let p = (process_id as u64) * 0x1_0000_0000;
    let mixed = (t ^ p) | 1u64;
    assert(mixed % 2 == 1) by (bit_vector)
        requires
            mixed == (t ^ p) | 1u64,
    ;
    mixed
}

/// A post result with its error prefixed by `prefix`.
pub open spec fn prefixed(posted: Result<(), String>, prefix: Seq<char>) -> Result<(), Seq<char>> {
    match posted {
        Ok(()) => Ok(()),
        Err(e) => Err(prefix + e@),
    }
}

/// The view of a unit result.
pub open spec fn unit_view(r: Result<(), String>) -> Result<(), Seq<char>> {
    match r {
        Ok(()) => Ok(()),
        Err(e) => Err(e@),
    }
}

fn prefix_error(posted: Result<(), String>, prefix: &str) -> (r: Result<(), String>)
    ensures
        unit_view(r) == prefixed(posted, prefix@),
{
    match posted {
        Ok(()) => Ok(()),
        Err(error) => {
            let mut message = String::from_str(prefix);
            message.append(error.as_str());
            Err(message)
        },
    }
}

/// Posts one click at client coordinates through `post`, which receives the
/// message, `WPARAM` and `LPARAM`.
pub fn post_bridge_click_with<F: FnOnce(u32, u64, i64) -> Result<(), String>>(
    x: i32,
    y: i32,
    request_id: u64,
    post: F,
) -> (result: Result<(), String>)
    requires
        forall|lparam: i64| post.requires((INPUT_BRIDGE_MESSAGE, request_id, lparam)),
    ensures
        exists|posted: Result<(), String>, lparam: i64|
            lparam as int == signed_bits(packed_coordinates(x, y)) && post.ensures(
                (INPUT_BRIDGE_MESSAGE, request_id, lparam),
                posted,
            ) && unit_view(result) == prefixed(posted, "PostMessageW(INPUT_BRIDGE_MESSAGE) failed: "@),
{
    let lparam = pack_bridge_coordinates(x, y);
    let posted = post(INPUT_BRIDGE_MESSAGE, request_id, lparam);
    prefix_error(posted, "PostMessageW(INPUT_BRIDGE_MESSAGE) failed: ")
}

/// Posts one drag endpoint (`message` is the start or end message).
pub fn post_bridge_drag_endpoint_with<F: FnOnce(u32, u64, i64) -> Result<(), String>>(
    message: u32,
    x: i32,
    y: i32,
    request_id: u64,
    post: F,
) -> (result: Result<(), String>)
    requires
        forall|lparam: i64| post.requires((message, request_id, lparam)),
    ensures
        exists|posted: Result<(), String>, lparam: i64|
            lparam as int == signed_bits(packed_coordinates(x, y)) && post.ensures((message, request_id, lparam), posted)
                && unit_view(result) == prefixed(posted, "PostMessageW(0x"@ + hex_text(message as nat) + ") failed: "@),
{
    let lparam = pack_bridge_coordinates(x, y);
    let posted = post(message, request_id, lparam);
    let mut prefix = String::from_str("PostMessageW(0x");
    let hex = hex_string(message as u64);
    prefix.append(hex.as_str());
    prefix.append(") failed: ");
    prefix_error(posted, prefix.as_str())
}

/// Posts one scroll through `post`.
pub fn post_bridge_scroll_with<F: FnOnce(u32, u64, i64) -> Result<(), String>>(
    x: i32,
    y: i32,
    length: i32,
    axis: Axis,
    request_id: u64,
    post: F,
) -> (result: Result<(), String>)
    requires
        forall|wparam: u64, lparam: i64| post.requires((SCROLL_BRIDGE_MESSAGE, wparam, lparam)),
    ensures
        exists|posted: Result<(), String>, wparam: u64, lparam: i64|
            wparam == packed_scroll(length, axis, request_id) && lparam as int == signed_bits(
                packed_coordinates(x, y),
            ) && post.ensures((SCROLL_BRIDGE_MESSAGE, wparam, lparam), posted) && unit_view(result) == prefixed(
                posted,
                "PostMessageW(SCROLL_BRIDGE_MESSAGE) failed: "@,
            ),
{
    let wparam = pack_bridge_scroll(length, axis, request_id);
    let lparam = pack_bridge_coordinates(x, y);
    let posted = post(SCROLL_BRIDGE_MESSAGE, wparam, lparam);
    prefix_error(posted, "PostMessageW(SCROLL_BRIDGE_MESSAGE) failed: ")
}

} // verus!

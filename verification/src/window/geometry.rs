use vstd::prelude::*;
use crate::numbers::{decimal_string, decimal_text};

verus! {

broadcast use vstd::string::group_string_axioms;

/// Where the game's client area sits on screen, and its size.
#[derive(Clone, Copy, Debug, PartialEq, Eq, Structural)]
pub struct ClientGeometry {
    pub origin_x: i32,
    pub origin_y: i32,
    pub width: i32,
    pub height: i32,
}

/// Whether `v` fits in an `i32`.
pub open spec fn fits_i32(v: int) -> bool {
    i32::MIN <= v <= i32::MAX
}

impl ClientGeometry {
    /// The client coordinates of a screen point, when the offsets fit in an
    /// `i32` and the point lies inside the client area.
    pub open spec fn client_point(self, screen_x: i32, screen_y: i32) -> Option<(i32, i32)> {
        let x = screen_x - self.origin_x;
        let y = screen_y - self.origin_y;
        if fits_i32(x) && fits_i32(y) && 0 <= x < self.width && 0 <= y < self.height {
            Some((x as i32, y as i32))
        } else {
            None
        }
    }

    /// Converts a screen point to client coordinates, or `None` outside the
    /// client area.
    pub fn screen_to_client(self, screen_x: i32, screen_y: i32) -> (point: Option<(i32, i32)>)
        ensures
            point == self.client_point(screen_x, screen_y),
    {
        let x = screen_x as i64 - self.origin_x as i64;
        let y = screen_y as i64 - self.origin_y as i64;
        if x < i32::MIN as i64 || x > i32::MAX as i64 || y < i32::MIN as i64 || y > i32::MAX as i64 {
            return None;
        }
        let x = x as i32;
        let y = y as i32;
        if x >= 0 && y >= 0 && x < self.width && y < self.height {
            Some((x, y))
        } else {
            None
        }
    }
}

/// The outer window size that gives a client area of the target size,
/// keeping the current frame, with each step checked for `i32` overflow.
pub open spec fn outer_size(
    outer_width: i32,
    outer_height: i32,
    client_width: i32,
    client_height: i32,
    target_width: i32,
    target_height: i32,
) -> Result<(i32, i32), Seq<char>> {
    let frame_width = outer_width - client_width;
    let frame_height = outer_height - client_height;
    if !fits_i32(frame_width) {
        Err("arithmetic overflow while calculating window frame width"@)
    } else if !fits_i32(frame_height) {
        Err("arithmetic overflow while calculating window frame height"@)
    } else if !fits_i32(target_width + frame_width) {
        Err("arithmetic overflow while calculating outer width"@)
    } else if !fits_i32(target_height + frame_height) {
        Err("arithmetic overflow while calculating outer height"@)
    } else {
        Ok(((target_width + frame_width) as i32, (target_height + frame_height) as i32))
    }
}

/// The error text of a result, if it failed.
pub open spec fn result_view<T>(r: Result<T, String>) -> Result<T, Seq<char>> {
    match r {
        Ok(v) => Ok(v),
        Err(e) => Err(e@),
    }
}

/// Computes the outer window size for a target client size.
pub fn outer_size_for_client(
    outer_width: i32,
    outer_height: i32,
    client_width: i32,
    client_height: i32,
    target_width: i32,
    target_height: i32,
) -> (size: Result<(i32, i32), String>)
    ensures
        result_view(size) == outer_size(
            outer_width,
            outer_height,
            client_width,
            client_height,
            target_width,
            target_height,
        ),
{
    let frame_width = outer_width as i64 - client_width as i64;
    if frame_width < i32::MIN as i64 || frame_width > i32::MAX as i64 {
        return Err(String::from_str("arithmetic overflow while calculating window frame width"));
    }
    let frame_height = outer_height as i64 - client_height as i64;
    if frame_height < i32::MIN as i64 || frame_height > i32::MAX as i64 {
        return Err(String::from_str("arithmetic overflow while calculating window frame height"));
    }
    let new_outer_width = target_width as i64 + frame_width;
    if new_outer_width < i32::MIN as i64 || new_outer_width > i32::MAX as i64 {
        return Err(String::from_str("arithmetic overflow while calculating outer width"));
    }
    let new_outer_height = target_height as i64 + frame_height;
    if new_outer_height < i32::MIN as i64 || new_outer_height > i32::MAX as i64 {
        return Err(String::from_str("arithmetic overflow while calculating outer height"));
    }
    Ok((new_outer_width as i32, new_outer_height as i32))
}

/// A resize request is only made for positive dimensions.
pub fn check_resize_dimensions(width: i32, height: i32) -> (checked: Result<(), String>)
    ensures
        checked is Ok <==> width > 0 && height > 0,
        checked matches Err(e) ==> e@ == "window dimensions must be positive"@,
{
    if width <= 0 || height <= 0 {
        return Err(String::from_str("window dimensions must be positive"));
    }
    Ok(())
}

/// After a resize, the client area must have the requested size.
pub fn check_resized(actual_width: i32, actual_height: i32, width: i32, height: i32) -> (checked: Result<(), String>)
    ensures
        checked is Ok <==> actual_width == width && actual_height == height,
        checked matches Err(e) ==> e@ == "client area is "@ + decimal_text(actual_width as int) + "x"@
            + decimal_text(actual_height as int) + ", requested "@ + decimal_text(width as int) + "x"@
            + decimal_text(height as int),
{
    if actual_width != width || actual_height != height {
        let aw = decimal_string(actual_width as i64);
        let ah = decimal_string(actual_height as i64);
        let w = decimal_string(width as i64);
        let h = decimal_string(height as i64);
        let mut message = String::from_str("client area is ");
        message.append(aw.as_str());
        message.append("x");
        message.append(ah.as_str());
        message.append(", requested ");
        message.append(w.as_str());
        message.append("x");
        message.append(h.as_str());
        return Err(message);
    }
    Ok(())
}

/// The extent `end - start` of a rectangle side, named `what` in the error
/// when it does not fit an `i32`.
pub fn checked_extent(start: i32, end: i32, what: &str) -> (extent: Result<i32, String>)
    ensures
        fits_i32(end - start) ==> extent == Ok::<i32, String>((end - start) as i32),
        !fits_i32(end - start) ==> (extent matches Err(e) && e@ == "arithmetic overflow while reading "@ + what@),
{
    let difference = end as i64 - start as i64;
    if difference < i32::MIN as i64 || difference > i32::MAX as i64 {
        let mut message = String::from_str("arithmetic overflow while reading ");
        message.append(what);
        return Err(message);
    }
    Ok(difference as i32)
}

/// Law: a point maps into the client area exactly when it lies inside it,
/// and mapping is undone by adding the origin back.
pub proof fn law_client_point_inside(geometry: ClientGeometry, screen_x: i32, screen_y: i32)
    ensures
        geometry.client_point(screen_x, screen_y) matches Some((x, y)) ==> 0 <= x < geometry.width && 0 <= y
            < geometry.height && x + geometry.origin_x == screen_x && y + geometry.origin_y == screen_y,
{
}

} // verus!

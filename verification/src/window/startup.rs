//! Initial window placement: a window of a given size centred on a monitor.
//!
//! The size itself comes from a fractional fill ratio and aspect ratio, which
//! the shell computes; the placement is integer arithmetic and lives here.

use vstd::prelude::*;

verus! {

/// Concrete geometry for the window before the first frame is shown.
#[derive(Debug, Clone, Copy, PartialEq, Eq, Structural)]
pub struct StartupGeometry {
    pub width: u32,
    pub height: u32,
    pub x: i32,
    pub y: i32,
}

/// Where a span of `size` pixels starts when centred in a span of `extent`
/// pixels that begins at `origin` (division truncates toward zero, so an
/// odd leftover puts the extra pixel after the window).
pub open spec fn centred_start(origin: int, extent: int, size: int) -> int {
    let gap = extent - size;
    origin + (if gap >= 0 { gap / 2 } else { -((-gap) / 2) })
}

/// Whether centring `size` in `extent` from `origin` stays in `i32`.
pub open spec fn centring_fits(origin: int, extent: int, size: int) -> bool {
    &&& extent <= i32::MAX
    &&& size <= i32::MAX
    &&& i32::MIN <= centred_start(origin, extent, size) <= i32::MAX
}

fn centre_axis(origin: i32, extent: u32, size: u32) -> (r: i32)
    requires
        centring_fits(origin as int, extent as int, size as int),
    ensures
        r == centred_start(origin as int, extent as int, size as int),
{
    let gap: i32 = (extent as i32) - (size as i32);
    // Rust's `/` truncates toward zero.
    let half: i32 = if gap >= 0 { gap / 2 } else { -((-gap) / 2) };
    origin + half
}

/// Places a `width` x `height` window in the middle of the monitor whose
/// top-left corner is (`monitor_x`, `monitor_y`).
pub fn centred_geometry(
    monitor_width: u32,
    monitor_height: u32,
    monitor_x: i32,
    monitor_y: i32,
    width: u32,
    height: u32,
) -> (g: StartupGeometry)
    requires
        centring_fits(monitor_x as int, monitor_width as int, width as int),
        centring_fits(monitor_y as int, monitor_height as int, height as int),
    ensures
        g.width == width,
        g.height == height,
        g.x == centred_start(monitor_x as int, monitor_width as int, width as int),
        g.y == centred_start(monitor_y as int, monitor_height as int, height as int),
{
    let x = centre_axis(monitor_x, monitor_width, width);
    let y = centre_axis(monitor_y, monitor_height, height);
    StartupGeometry { width, height, x, y }
}

} // verus!

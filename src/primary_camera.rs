use crate::geometry::Point;
use crate::level::{LevelGrid, TILE_SIZE};
use vstd::prelude::*;

verus! {

/// One camera coordinate kept inside a map `map` units wide, for a viewport
/// `vp` units wide centred on it; a map narrower than the viewport leaves the
/// coordinate alone.
pub open spec fn clamp_axis(c: int, map: int, vp: int) -> int {
    if map >= vp {
        let lo = -(map / 2) + vp / 2;
        let hi = map / 2 - vp / 2;
        if c < lo {
            lo
        } else if c > hi {
            hi
        } else {
            c
        }
    } else {
        c
    }
}

fn clamp_coord(c: i32, map: i32, vp: i32) -> (r: i32)
    requires
        0 <= map,
        0 <= vp,
    ensures
        r == clamp_axis(c as int, map as int, vp as int),
{
    if map >= vp {
        let lo: i32 = -(map / 2) + vp / 2;
        let hi: i32 = map / 2 - vp / 2;
        if c < lo {
            lo
        } else if c > hi {
            hi
        } else {
            c
        }
    } else {
        c
    }
}

/// The camera centre `cam` moved so that a viewport of `vp_width` by
/// `vp_height` units shows no space beyond the level, along each axis on
/// which the level is at least as large as the viewport.
pub fn clamp_to_tilemap(cam: Point, vp_width: u16, vp_height: u16, grid: &LevelGrid) -> (r: Point)
    requires
        grid.wf(),
    ensures
        r.x == clamp_axis(cam.x as int, grid.width() * TILE_SIZE, vp_width as int),
        r.y == clamp_axis(cam.y as int, grid.height() * TILE_SIZE, vp_height as int),
{
    let map_w: i32 = grid.width_cells() as i32 * TILE_SIZE;
    let map_h: i32 = grid.height_cells() as i32 * TILE_SIZE;
    Point {
        x: clamp_coord(cam.x, map_w, vp_width as i32),
        y: clamp_coord(cam.y, map_h, vp_height as i32),
    }
}

} // verus!

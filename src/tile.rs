use crate::level::LevelObject;
use vstd::prelude::*;

verus! {

/// A box collider attached to a tile, in half world units (the walls are an
/// odd number of units thick): its centre relative to the tile's centre and
/// its half extents.
#[derive(Clone, Copy, Debug, PartialEq, Eq, Structural)]
pub struct WallCollider {
    pub offset_x: i32,
    pub offset_y: i32,
    pub half_width: i32,
    pub half_height: i32,
}

/// Half a tile, in half world units.
pub const HALF_TILE_HALVES: i32 = 64;

/// Half the wall thickness (15 world units), in half world units.
pub const HALF_WALL_HALVES: i32 = 15;

/// Distance from a tile's centre to the centre of a wall along its edge, in
/// half world units.
pub const WALL_INSET_HALVES: i32 = 49;

pub open spec fn has_left_wall(tag: LevelObject) -> bool {
    tag == LevelObject::LeftWall || tag == LevelObject::TopLeftWall || tag
        == LevelObject::BottomLeftWall || tag == LevelObject::UShapedWall
}

pub open spec fn has_right_wall(tag: LevelObject) -> bool {
    tag == LevelObject::RightWall || tag == LevelObject::TopRightWall || tag
        == LevelObject::BottomRightWall || tag == LevelObject::UShapedWall
}

pub open spec fn has_top_wall(tag: LevelObject) -> bool {
    tag == LevelObject::TopWall || tag == LevelObject::TopLeftWall || tag
        == LevelObject::TopRightWall
}

pub open spec fn has_bottom_wall(tag: LevelObject) -> bool {
    tag == LevelObject::BottomWall || tag == LevelObject::BottomLeftWall || tag
        == LevelObject::BottomRightWall || tag == LevelObject::UShapedWall
}

pub open spec fn collider(ox: i32, oy: i32, hw: i32, hh: i32) -> WallCollider {
    WallCollider { offset_x: ox, offset_y: oy, half_width: hw, half_height: hh }
}

/// A single collider when `present`, none otherwise.
pub open spec fn if_present(present: bool, c: WallCollider) -> Seq<WallCollider> {
    if present {
        seq![c]
    } else {
        Seq::empty()
    }
}

/// The colliders of a tile carrying `tag`, in this order: a full-height wall
/// along the left edge, one along the right edge, a full-width wall along the
/// top edge, one along the bottom edge, and a square post in the top-left,
/// top-right, bottom-left or bottom-right corner for the corner tags.
pub open spec fn colliders_of(tag: LevelObject) -> Seq<WallCollider> {
    let near: i32 = (-WALL_INSET_HALVES) as i32;
    let far: i32 = WALL_INSET_HALVES;
    let post: i32 = HALF_WALL_HALVES;
    let side: i32 = HALF_TILE_HALVES;
    if_present(has_left_wall(tag), collider(near, 0i32, post, side)) + if_present(
        has_right_wall(tag),
        collider(far, 0i32, post, side),
    ) + if_present(has_top_wall(tag), collider(0i32, far, side, post)) + if_present(
        has_bottom_wall(tag),
        collider(0i32, near, side, post),
    ) + if_present(tag == LevelObject::TopLeftCorner, collider(near, far, post, post))
        + if_present(tag == LevelObject::TopRightCorner, collider(far, far, post, post))
        + if_present(tag == LevelObject::BottomLeftCorner, collider(near, near, post, post))
        + if_present(tag == LevelObject::BottomRightCorner, collider(far, near, post, post))
}

/// The colliders that a tile carrying `tag` gets, in the order above.
pub fn wall_colliders(tag: LevelObject) -> (r: Vec<WallCollider>)
    ensures
        r@ == colliders_of(tag),
{
    let near: i32 = -WALL_INSET_HALVES;
    let far: i32 = WALL_INSET_HALVES;
    let post: i32 = HALF_WALL_HALVES;
    let side: i32 = HALF_TILE_HALVES;
    let left = match tag {
        LevelObject::LeftWall
        | LevelObject::TopLeftWall
        | LevelObject::BottomLeftWall
        | LevelObject::UShapedWall => true,
        _ => false,
    };
    let right = match tag {
        LevelObject::RightWall
        | LevelObject::TopRightWall
        | LevelObject::BottomRightWall
        | LevelObject::UShapedWall => true,
        _ => false,
    };
    let top = match tag {
        LevelObject::TopWall | LevelObject::TopLeftWall | LevelObject::TopRightWall => true,
        _ => false,
    };
    let bottom = match tag {
        LevelObject::BottomWall
        | LevelObject::BottomLeftWall
        | LevelObject::BottomRightWall
        | LevelObject::UShapedWall => true,
        _ => false,
    };
    let mut r: Vec<WallCollider> = Vec::new();
    if left {
        r.push(WallCollider { offset_x: near, offset_y: 0, half_width: post, half_height: side });
    }
    if right {
        r.push(WallCollider { offset_x: far, offset_y: 0, half_width: post, half_height: side });
    }
    if top {
        r.push(WallCollider { offset_x: 0, offset_y: far, half_width: side, half_height: post });
    }
    if bottom {
        r.push(WallCollider { offset_x: 0, offset_y: near, half_width: side, half_height: post });
    }
    if tag == LevelObject::TopLeftCorner {
        r.push(WallCollider { offset_x: near, offset_y: far, half_width: post, half_height: post });
    }
    if tag == LevelObject::TopRightCorner {
        r.push(WallCollider { offset_x: far, offset_y: far, half_width: post, half_height: post });
    }
    if tag == LevelObject::BottomLeftCorner {
        r.push(
            WallCollider { offset_x: near, offset_y: near, half_width: post, half_height: post },
        );
    }
    if tag == LevelObject::BottomRightCorner {
        r.push(WallCollider { offset_x: far, offset_y: near, half_width: post, half_height: post });
    }
    assert(r@ =~= colliders_of(tag));
    r
}

} // verus!

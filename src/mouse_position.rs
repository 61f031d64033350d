use crate::geometry::Point;
use vstd::prelude::*;

verus! {

/// The pointer's last known world position.
pub struct MousePosition(Point);

impl MousePosition {
    pub closed spec fn pos(&self) -> Point {
        self.0
    }

    pub fn new(p: Point) -> (r: MousePosition)
        ensures
            r.pos() == p,
    {
        MousePosition(p)
    }

    pub fn x(&self) -> (r: i32)
        ensures
            r == self.pos().x,
    {
        self.0.x
    }

    pub fn y(&self) -> (r: i32)
        ensures
            r == self.pos().y,
    {
        self.0.y
    }

    pub fn as_vec(&self) -> (r: Point)
        ensures
            r == self.pos(),
    {
        self.0
    }

    /// Takes the pointer's new position when it is over the world, and keeps
    /// the last one otherwise.
    pub fn update_mouse_position(&mut self, seen: Option<Point>)
        ensures
            final(self).pos() == match seen {
                Some(p) => p,
                None => old(self).pos(),
            },
    {
        if let Some(p) = seen {
            self.0 = p;
        }
    }
}

} // verus!

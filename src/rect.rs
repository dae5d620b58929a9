use vstd::prelude::*;

verus! {

/// An axis-aligned room outline: the walls stand on `x1`, `x2`, `y1` and
/// `y2`, the floor strictly between them.
#[derive(Clone, Copy, Debug, PartialEq, Eq, Structural)]
pub struct Rect {
    pub x1: i32,
    pub y1: i32,
    pub x2: i32,
    pub y2: i32,
}

/// Half of `v`, rounded toward zero as integer division does.
pub open spec fn half(v: int) -> int {
    if v >= 0 {
        v / 2
    } else {
        -((-v) / 2)
    }
}

pub open spec fn center_of(r: Rect) -> (int, int) {
    (half(r.x1 + r.x2), half(r.y1 + r.y2))
}

/// The closed rectangles overlap or touch.
pub open spec fn intersects(a: Rect, b: Rect) -> bool {
    a.x1 <= b.x2 && a.x2 >= b.x1 && a.y1 <= b.y2 && a.y2 >= b.y1
}

/// The cell lies strictly inside the outline, where the floor is carved.
pub open spec fn inside_room(r: Rect, x: int, y: int) -> bool {
    r.x1 < x < r.x2 && r.y1 < y < r.y2
}

fn half_of(v: i64) -> (r: i64)
    requires
        v > i64::MIN,
    ensures
        r == half(v as int),
{
    if v >= 0 {
        v / 2
    } else {
        -((-v) / 2)
    }
}

impl Rect {
    /// The rectangle with top-left corner (`x`, `y`), `w` wide and `h` high.
    pub fn new(x: i32, y: i32, w: i32, h: i32) -> (r: Rect)
        requires
            i32::MIN <= x + w <= i32::MAX,
            i32::MIN <= y + h <= i32::MAX,
        ensures
            r == (Rect { x1: x, y1: y, x2: (x + w) as i32, y2: (y + h) as i32 }),
    {
        Rect { x1: x, y1: y, x2: x + w, y2: y + h }
    }

    pub fn center(&self) -> (r: (i32, i32))
        ensures
            r.0 == center_of(*self).0,
            r.1 == center_of(*self).1,
    {
        let cx = half_of(self.x1 as i64 + self.x2 as i64);
        let cy = half_of(self.y1 as i64 + self.y2 as i64);
        (cx as i32, cy as i32)
    }

    /// True when the two rectangles, taken closed on all sides, overlap or
    /// touch.
    pub fn intersects_with(&self, other: &Rect) -> (r: bool)
        ensures
            r == intersects(*self, *other),
    {
        self.x1 <= other.x2 && self.x2 >= other.x1 && self.y1 <= other.y2 && self.y2 >= other.y1
    }
}

} // verus!

use vstd::prelude::*;

verus! {

/// Marks the entity steered by the player.
pub struct Player();

/// Vertical heading of a plane, fixed when it spawns.
#[derive(Clone, Copy, PartialEq, Eq, Structural, Debug)]
pub enum Direction {
    Up,
    Down,
}

/// Marks an adversary plane and its heading.
#[derive(Clone, Copy, PartialEq, Eq, Structural, Debug)]
pub struct Plane {
    pub direction: Direction,
}

impl Plane {
    pub fn new(direction: Direction) -> (r: Self)
        ensures
            r.direction == direction,
    {
        Self { direction }
    }
}

/// World position of an entity, in screen pixels.
#[derive(Clone, Copy, PartialEq, Eq, Structural, Debug)]
pub struct Transform {
    pub x: i32,
    pub y: i32,
}

impl Transform {
    pub fn new(x: i32, y: i32) -> (r: Self)
        ensures
            r.x == x,
            r.y == y,
    {
        Self { x, y }
    }
}

/// An axis-aligned box given relative to its owner's position.
#[derive(Clone, Copy, PartialEq, Eq, Structural, Debug)]
pub struct Collider {
    x: i32,
    y: i32,
    width: u32,
    height: u32,
}

/// The closed intervals `[amin, amax]` and `[bmin, bmax]` meet: an end of
/// the first lies in the second, or the first spans the second.
pub open spec fn spans_meet(amin: int, amax: int, bmin: int, bmax: int) -> bool {
    (amin >= bmin && amin <= bmax) || (amax >= bmin && amax <= bmax) || (amin <= bmin && amax
        >= bmax)
}

impl Collider {
    pub closed spec fn x_spec(&self) -> int {
        self.x as int
    }

    pub closed spec fn y_spec(&self) -> int {
        self.y as int
    }

    pub closed spec fn width_spec(&self) -> int {
        self.width as int
    }

    pub closed spec fn height_spec(&self) -> int {
        self.height as int
    }

    pub open spec fn xmin_spec(&self, pos: Transform) -> int {
        self.x_spec() + pos.x
    }

    pub open spec fn xmax_spec(&self, pos: Transform) -> int {
        self.x_spec() + self.width_spec() + pos.x
    }

    pub open spec fn ymin_spec(&self, pos: Transform) -> int {
        self.y_spec() + pos.y
    }

    pub open spec fn ymax_spec(&self, pos: Transform) -> int {
        self.y_spec() + self.height_spec() + pos.y
    }

    /// The boxes of `a` at `pa` and of `b` at `pb` overlap; touching edges count.
    pub open spec fn overlaps(a: Collider, pa: Transform, b: Collider, pb: Transform) -> bool {
        spans_meet(a.xmin_spec(pa), a.xmax_spec(pa), b.xmin_spec(pb), b.xmax_spec(pb))
            && spans_meet(a.ymin_spec(pa), a.ymax_spec(pa), b.ymin_spec(pb), b.ymax_spec(pb))
    }

    pub closed spec fn new_spec(x: i32, y: i32, width: u32, height: u32) -> Collider {
        Collider { x, y, width, height }
    }

    pub fn new(x: i32, y: i32, width: u32, height: u32) -> (r: Self)
        ensures
            r == Collider::new_spec(x, y, width, height),
            r.x_spec() == x,
            r.y_spec() == y,
            r.width_spec() == width,
            r.height_spec() == height,
    {
        Self { x, y, width, height }
    }

    pub fn intersects(this: &Collider, this_pos: &Transform, other: &Collider, other_pos: &Transform) -> (r: bool)
        ensures
            r == Collider::overlaps(*this, *this_pos, *other, *other_pos),
    {
        let (axmin, axmax) = (this.xmin(this_pos), this.xmax(this_pos));
        let (bxmin, bxmax) = (other.xmin(other_pos), other.xmax(other_pos));
        let (aymin, aymax) = (this.ymin(this_pos), this.ymax(this_pos));
        let (bymin, bymax) = (other.ymin(other_pos), other.ymax(other_pos));
        if (axmin >= bxmin && axmin <= bxmax) || (axmax >= bxmin && axmax <= bxmax) || (axmin
            <= bxmin && axmax >= bxmax) {
            if (aymin >= bymin && aymin <= bymax) || (aymax >= bymin && aymax <= bymax) || (aymin
                <= bymin && aymax >= bymax) {
                return true;
            }
        }
        false
    }

    pub fn xmin(&self, pos: &Transform) -> (r: i64)
        ensures
            r == self.xmin_spec(*pos),
    {
        self.x as i64 + pos.x as i64
    }

    pub fn xmax(&self, pos: &Transform) -> (r: i64)
        ensures
            r == self.xmax_spec(*pos),
    {
        self.x as i64 + self.width as i64 + pos.x as i64
    }

    pub fn ymin(&self, pos: &Transform) -> (r: i64)
        ensures
            r == self.ymin_spec(*pos),
    {
        self.y as i64 + pos.y as i64
    }

    pub fn ymax(&self, pos: &Transform) -> (r: i64)
        ensures
            r == self.ymax_spec(*pos),
    {
        self.y as i64 + self.height as i64 + pos.y as i64
    }
}

/// Two closed intervals meet exactly when the larger start is at most the
/// smaller end.
pub proof fn lemma_spans_meet_iff_overlap(amin: int, amax: int, bmin: int, bmax: int)
    requires
        amin <= amax,
        bmin <= bmax,
    ensures
        spans_meet(amin, amax, bmin, bmax) <==> (if amin >= bmin { amin } else { bmin }) <= (
        if amax <= bmax { amax } else { bmax }),
{
}

/// Collision is symmetric: `a` at `pa` hits `b` at `pb` exactly when `b` at
/// `pb` hits `a` at `pa`.
pub proof fn lemma_intersects_symmetric(a: Collider, pa: Transform, b: Collider, pb: Transform)
    ensures
        Collider::overlaps(a, pa, b, pb) == Collider::overlaps(b, pb, a, pa),
{
    lemma_spans_meet_iff_overlap(a.xmin_spec(pa), a.xmax_spec(pa), b.xmin_spec(pb), b.xmax_spec(pb));
    lemma_spans_meet_iff_overlap(b.xmin_spec(pb), b.xmax_spec(pb), a.xmin_spec(pa), a.xmax_spec(pa));
    lemma_spans_meet_iff_overlap(a.ymin_spec(pa), a.ymax_spec(pa), b.ymin_spec(pb), b.ymax_spec(pb));
    lemma_spans_meet_iff_overlap(b.ymin_spec(pb), b.ymax_spec(pb), a.ymin_spec(pa), a.ymax_spec(pa));
}

/// Altitude of the player, in hundredths of a unit.
#[derive(Clone, Copy, PartialEq, Eq, Structural, Debug)]
pub struct Height(pub i32);

/// The running score.
#[derive(Clone, Copy, PartialEq, Eq, Structural, Debug)]
pub struct Points(pub u32);

impl Points {
    pub fn new() -> (r: Self)
        ensures
            r.0 == 0,
    {
        Self(0)
    }
}

} // verus!

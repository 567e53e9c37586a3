//! Axis-aligned rectangles and the collision resolver shared by every obstacle.
use vstd::prelude::*;

verus! {

/// Coordinates and sizes a [`Rect`] may hold so that its edges, its doubled
/// centre and a correction by its own size all stay inside `i64`.
pub const COORD_LIMIT: i64 = 1152921504606846976;

/// An axis-aligned rectangle: top-left corner `(x, y)`, width `w`, height `h`.
#[derive(Clone, Copy, Debug, PartialEq, Eq, Structural)]
pub struct Rect {
    pub x: i64,
    pub y: i64,
    pub w: i64,
    pub h: i64,
}

impl Rect {
    pub open spec fn wf(self) -> bool {
        &&& -COORD_LIMIT <= self.x <= COORD_LIMIT
        &&& -COORD_LIMIT <= self.y <= COORD_LIMIT
        &&& 0 <= self.w <= COORD_LIMIT
        &&& 0 <= self.h <= COORD_LIMIT
    }

    pub fn new(x: i64, y: i64, w: i64, h: i64) -> (r: Rect)
        ensures
            r == (Rect { x, y, w, h }),
    {
        Rect { x, y, w, h }
    }

    /// The common part of two rectangles; rectangles that only touch share a
    /// part of zero width or height.
    pub fn intersect(&self, other: &Rect) -> (r: Option<Rect>)
        requires
            self.wf(),
            other.wf(),
        ensures
            r.is_some() == intersects(*self, *other),
            r.is_some() ==> r.unwrap() == (Rect {
                x: max(self.x as int, other.x as int) as i64,
                y: max(self.y as int, other.y as int) as i64,
                w: overlap_x(*self, *other) as i64,
                h: overlap_y(*self, *other) as i64,
            }),
    {
        let left = if self.x >= other.x { self.x } else { other.x };
        let top = if self.y >= other.y { self.y } else { other.y };
        let right = if self.x + self.w <= other.x + other.w { self.x + self.w } else { other.x + other.w };
        let bottom = if self.y + self.h <= other.y + other.h { self.y + self.h } else { other.y + other.h };
        if right < left || bottom < top {
            return None;
        }
        Some(Rect { x: left, y: top, w: right - left, h: bottom - top })
    }
}

pub open spec fn min(a: int, b: int) -> int {
    if a <= b { a } else { b }
}

pub open spec fn max(a: int, b: int) -> int {
    if a >= b { a } else { b }
}

pub open spec fn abs(v: int) -> int {
    if v < 0 { -v } else { v }
}

/// Length shared by the segments `[a_lo, a_lo + a_len]` and `[b_lo, b_lo + b_len]`;
/// negative when they are apart.
pub open spec fn overlap(a_lo: int, a_len: int, b_lo: int, b_len: int) -> int {
    min(a_lo + a_len, b_lo + b_len) - max(a_lo, b_lo)
}

pub open spec fn overlap_x(a: Rect, b: Rect) -> int {
    overlap(a.x as int, a.w as int, b.x as int, b.w as int)
}

pub open spec fn overlap_y(a: Rect, b: Rect) -> int {
    overlap(a.y as int, a.h as int, b.y as int, b.h as int)
}

/// The closed rectangles meet (touching counts).
pub open spec fn intersects(a: Rect, b: Rect) -> bool {
    overlap_x(a, b) >= 0 && overlap_y(a, b) >= 0
}

/// The open interiors of the rectangles meet.
pub open spec fn overlaps_inside(a: Rect, b: Rect) -> bool {
    overlap_x(a, b) > 0 && overlap_y(a, b) > 0
}

/// Sign of the step from the centre of segment `a` to the centre of segment
/// `b`; centres that coincide count as positive.
pub open spec fn toward(a_lo: int, a_len: int, b_lo: int, b_len: int) -> int {
    if 2 * b_lo + b_len >= 2 * a_lo + a_len { 1 } else { -1 }
}

pub open spec fn toward_x(a: Rect, b: Rect) -> int {
    toward(a.x as int, a.w as int, b.x as int, b.w as int)
}

pub open spec fn toward_y(a: Rect, b: Rect) -> int {
    toward(a.y as int, a.h as int, b.y as int, b.h as int)
}

/// The collision is resolved along y when the common part is wider than tall.
pub open spec fn resolves_vertically(a: Rect, b: Rect) -> bool {
    overlap_x(a, b) > overlap_y(a, b)
}

/// A coordinate moved back by `depth`, against the direction of the obstacle
/// (`pos`: the obstacle lies on the positive side).
pub open spec fn push(c: int, depth: int, pos: bool) -> int {
    if pos { c - depth } else { c + depth }
}

/// A velocity component with its magnitude kept, pointing away from the
/// obstacle.
pub open spec fn away(v: int, pos: bool) -> int {
    if pos { -abs(v) } else { abs(v) }
}

/// Where a rectangle `a` moving with velocity `v` ends up, with which velocity,
/// after being resolved against the obstacle `b`: pushed back out of `b` by the
/// depth of the common part along one axis, that velocity component turned to
/// point away from `b`'s centre with its magnitude kept.
pub open spec fn resolved(a: Rect, v: (i64, i64), b: Rect) -> (Rect, (i64, i64)) {
    if !intersects(a, b) {
        (a, v)
    } else if resolves_vertically(a, b) {
        let pos = toward_y(a, b) == 1;
        (
            Rect { x: a.x, y: push(a.y as int, overlap_y(a, b), pos) as i64, w: a.w, h: a.h },
            (v.0, away(v.1 as int, pos) as i64),
        )
    } else {
        let pos = toward_x(a, b) == 1;
        (
            Rect { x: push(a.x as int, overlap_x(a, b), pos) as i64, y: a.y, w: a.w, h: a.h },
            (away(v.0 as int, pos) as i64, v.1),
        )
    }
}

/// Resolves the moving rectangle `a`, with velocity `vel`, against the obstacle
/// `b`, and says whether they met.
pub fn resolve_collision(a: &mut Rect, vel: &mut (i64, i64), b: &Rect) -> (r: bool)
    requires
        old(a).wf(),
        b.wf(),
        old(vel).0 > i64::MIN,
        old(vel).1 > i64::MIN,
    ensures
        r == intersects(*old(a), *b),
        (*final(a), *final(vel)) == resolved(*old(a), *old(vel), *b),
        min(old(a).x as int, b.x - old(a).w) <= final(a).x <= max(old(a).x as int, b.x + b.w),
        min(old(a).y as int, b.y - old(a).h) <= final(a).y <= max(old(a).y as int, b.y + b.h),
{
    let inter = match a.intersect(b) {
        Some(inter) => inter,
        None => return false,
    };
    if inter.w > inter.h {
        let mag: i64 = if vel.1 < 0 { -vel.1 } else { vel.1 };
        if 2 * b.y + b.h >= 2 * a.y + a.h {
            a.y = a.y - inter.h;
            vel.1 = -mag;
        } else {
            a.y = a.y + inter.h;
            vel.1 = mag;
        }
    } else {
        let mag: i64 = if vel.0 < 0 { -vel.0 } else { vel.0 };
        if 2 * b.x + b.w >= 2 * a.x + a.w {
            a.x = a.x - inter.w;
            vel.0 = -mag;
        } else {
            a.x = a.x + inter.w;
            vel.0 = mag;
        }
    }
    true
}

/// Segments are staggered when the one that starts first does not end last:
/// neither lies strictly inside the other.
pub open spec fn staggered(a_lo: int, a_len: int, b_lo: int, b_len: int) -> bool {
    (a_lo <= b_lo && a_lo + a_len <= b_lo + b_len) || (b_lo <= a_lo && b_lo + b_len <= a_lo + a_len)
}

/// For any two meeting rectangles, the velocity component along the axis the
/// resolver picks comes out pointing away from the obstacle's centre with its
/// magnitude kept; the other component is untouched.
pub proof fn lemma_reflection_points_away(a: Rect, v: (i64, i64), b: Rect)
    requires
        v.0 > i64::MIN,
        v.1 > i64::MIN,
        intersects(a, b),
    ensures
        resolves_vertically(a, b) ==> {
            &&& toward_y(a, b) == 1 ==> resolved(a, v, b).1.1 <= 0
            &&& toward_y(a, b) == -1 ==> resolved(a, v, b).1.1 >= 0
            &&& abs(resolved(a, v, b).1.1 as int) == abs(v.1 as int)
            &&& resolved(a, v, b).1.0 == v.0
        },
        !resolves_vertically(a, b) ==> {
            &&& toward_x(a, b) == 1 ==> resolved(a, v, b).1.0 <= 0
            &&& toward_x(a, b) == -1 ==> resolved(a, v, b).1.0 >= 0
            &&& abs(resolved(a, v, b).1.0 as int) == abs(v.0 as int)
            &&& resolved(a, v, b).1.1 == v.1
        },
{
}

/// Two meeting rectangles whose extents are staggered along the axis the
/// resolver picks no longer overlap inside once resolved: the moving one ends
/// flush against the obstacle.
pub proof fn lemma_resolution_separates(a: Rect, v: (i64, i64), b: Rect)
    requires
        a.wf(),
        b.wf(),
        intersects(a, b),
        resolves_vertically(a, b) ==> staggered(a.y as int, a.h as int, b.y as int, b.h as int),
        !resolves_vertically(a, b) ==> staggered(a.x as int, a.w as int, b.x as int, b.w as int),
    ensures
        !overlaps_inside(resolved(a, v, b).0, b),
        resolves_vertically(a, b) ==> overlap_y(resolved(a, v, b).0, b) == 0,
        !resolves_vertically(a, b) ==> overlap_x(resolved(a, v, b).0, b) == 0,
{
}

/// Rectangles that do not meet are left as they were.
pub proof fn lemma_apart_untouched(a: Rect, v: (i64, i64), b: Rect)
    requires
        !intersects(a, b),
    ensures
        resolved(a, v, b) == (a, v),
{
}

} // verus!

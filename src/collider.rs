//! Axis-aligned rectangle colliders and discs, with their pairwise collision tests.
use vstd::prelude::*;

use crate::fixed::{in_range, LIMIT};

verus! {

/// A point or a displacement in fixed-point coordinates.
#[derive(Debug, Clone, Copy, PartialEq, Eq, Structural)]
pub struct Vec2 {
    pub x: i64,
    pub y: i64,
}

impl Vec2 {
    pub fn new(x: i64, y: i64) -> (r: Self)
        ensures
            r.x == x,
            r.y == y,
    {
        Vec2 { x, y }
    }

    pub open spec fn wf(&self) -> bool {
        in_range(self.x as int) && in_range(self.y as int)
    }
}

/// A rectangle given by its centre and its half extents.
#[derive(Debug, Clone, Copy, PartialEq, Eq, Structural)]
pub struct Collider {
    pub position: Vec2,
    pub half_width: i64,
    pub half_height: i64,
}

/// The result of a collision test: pushing the first collider by
/// `-normal * penetration` separates it from the second one.
#[derive(Debug, Clone, Copy, PartialEq, Eq, Structural)]
pub struct Collision {
    pub normal: Vec2,
    pub penetration: i64,
}

/// Lower and upper corners of a rectangle.
#[derive(Debug, Clone, Copy, PartialEq, Eq, Structural)]
pub struct Aabb {
    pub min: Vec2,
    pub max: Vec2,
}

/// Whether the open rectangles `[l1, r1] x [b1, t1]` and `[l2, r2] x [b2, t2]` overlap
/// with a positive area.
pub open spec fn boxes_overlap(
    l1: int,
    r1: int,
    b1: int,
    t1: int,
    l2: int,
    r2: int,
    b2: int,
    t2: int,
) -> bool {
    l1 < r2 && l2 < r1 && b1 < t2 && b2 < t1
}

impl Collider {
    pub open spec fn wf(&self) -> bool {
        &&& self.position.wf()
        &&& 0 <= self.half_width <= LIMIT
        &&& 0 <= self.half_height <= LIMIT
    }

    pub open spec fn left(&self) -> int {
        self.position.x - self.half_width
    }

    pub open spec fn right(&self) -> int {
        self.position.x + self.half_width
    }

    pub open spec fn bottom(&self) -> int {
        self.position.y - self.half_height
    }

    pub open spec fn top(&self) -> int {
        self.position.y + self.half_height
    }

    /// Whether this collider, moved by `(dx, dy)`, overlaps `other` with a positive area.
    pub open spec fn overlaps_shifted(&self, dx: int, dy: int, other: &Collider) -> bool {
        boxes_overlap(
            self.left() + dx,
            self.right() + dx,
            self.bottom() + dy,
            self.top() + dy,
            other.left(),
            other.right(),
            other.bottom(),
            other.top(),
        )
    }

    pub open spec fn overlaps(&self, other: &Collider) -> bool {
        self.overlaps_shifted(0, 0, other)
    }

    /// Whether the closed rectangles meet, possibly only along an edge.
    pub open spec fn touches(&self, other: &Collider) -> bool {
        &&& self.left() <= other.right()
        &&& other.left() <= self.right()
        &&& self.bottom() <= other.top()
        &&& other.bottom() <= self.top()
    }

    /// Distance to move left so that this collider clears `other`.
    pub open spec fn push_left(&self, other: &Collider) -> int {
        self.right() - other.left()
    }

    /// Distance to move right so that this collider clears `other`.
    pub open spec fn push_right(&self, other: &Collider) -> int {
        other.right() - self.left()
    }

    /// Distance to move down so that this collider clears `other`.
    pub open spec fn push_down(&self, other: &Collider) -> int {
        self.top() - other.bottom()
    }

    /// Distance to move up so that this collider clears `other`.
    pub open spec fn push_up(&self, other: &Collider) -> int {
        other.top() - self.bottom()
    }

    pub open spec fn depth_x(&self, other: &Collider) -> int {
        if self.push_left(other) <= self.push_right(other) {
            self.push_left(other)
        } else {
            self.push_right(other)
        }
    }

    pub open spec fn depth_y(&self, other: &Collider) -> int {
        if self.push_down(other) <= self.push_up(other) {
            self.push_down(other)
        } else {
            self.push_up(other)
        }
    }

    /// Whether the separation along x is no longer than the one along y.
    pub open spec fn resolves_along_x(&self, other: &Collider) -> bool {
        self.depth_x(other) <= self.depth_y(other)
    }

    /// Unit normal of the minimum translation, pointing from `self` toward `other`.
    pub open spec fn normal_x(&self, other: &Collider) -> int {
        if !self.resolves_along_x(other) {
            0
        } else if self.push_left(other) <= self.push_right(other) {
            1
        } else {
            -1
        }
    }

    pub open spec fn normal_y(&self, other: &Collider) -> int {
        if self.resolves_along_x(other) {
            0
        } else if self.push_down(other) <= self.push_up(other) {
            1
        } else {
            -1
        }
    }

    /// Length of the minimum translation.
    pub open spec fn penetration(&self, other: &Collider) -> int {
        if self.resolves_along_x(other) {
            self.depth_x(other)
        } else {
            self.depth_y(other)
        }
    }

    /// Whether `c` is the minimum-translation collision of `self` against `other`.
    pub open spec fn is_collision_with(&self, other: &Collider, c: Collision) -> bool {
        &&& c.normal.x == self.normal_x(other)
        &&& c.normal.y == self.normal_y(other)
        &&& c.penetration == self.penetration(other)
    }

    /// A collider centred at `position` with the given half extents.
    pub fn rect(position: Vec2, half_width: i64, half_height: i64) -> (r: Self)
        ensures
            r.position == position,
            r.half_width == half_width,
            r.half_height == half_height,
    {
        Collider { position, half_width, half_height }
    }

    /// The bounding box of the collider.
    pub fn compute_aabb(&self) -> (r: Aabb)
        requires
            self.wf(),
        ensures
            r.min.x == self.left(),
            r.max.x == self.right(),
            r.min.y == self.bottom(),
            r.max.y == self.top(),
    {
        Aabb {
            min: Vec2 {
                x: self.position.x - self.half_width,
                y: self.position.y - self.half_height,
            },
            max: Vec2 {
                x: self.position.x + self.half_width,
                y: self.position.y + self.half_height,
            },
        }
    }

    /// Cheap overlap test without resolution data.
    pub fn check(&self, other: &Collider) -> (r: bool)
        requires
            self.wf(),
            other.wf(),
        ensures
            r == self.overlaps(other),
    {
        let a = self.compute_aabb();
        let b = other.compute_aabb();
        a.min.x < b.max.x && b.min.x < a.max.x && a.min.y < b.max.y && b.min.y < a.max.y
    }

    /// Contact test: overlap or a shared edge.
    pub fn touching(&self, other: &Collider) -> (r: bool)
        requires
            self.wf(),
            other.wf(),
        ensures
            r == self.touches(other),
    {
        let a = self.compute_aabb();
        let b = other.compute_aabb();
        a.min.x <= b.max.x && b.min.x <= a.max.x && a.min.y <= b.max.y && b.min.y <= a.max.y
    }

    /// The minimum translation that separates `self` from `other`, or `None`
    /// when they do not overlap.
    pub fn collide(&self, other: &Collider) -> (r: Option<Collision>)
        requires
            self.wf(),
            other.wf(),
        ensures
            r is Some <==> self.overlaps(other),
            !self.overlaps(other) ==> r is None,
            r matches Some(c) ==> self.is_collision_with(other, c) && c.penetration > 0,
    {
        if !self.check(other) {
            return None;
        }
        let a = self.compute_aabb();
        let b = other.compute_aabb();
        let push_left = a.max.x - b.min.x;
        let push_right = b.max.x - a.min.x;
        let push_down = a.max.y - b.min.y;
        let push_up = b.max.y - a.min.y;
        let (nx, depth_x) = if push_left <= push_right {
            (1i64, push_left)
        } else {
            (-1i64, push_right)
        };
        let (ny, depth_y) = if push_down <= push_up {
            (1i64, push_down)
        } else {
            (-1i64, push_up)
        };
        if depth_x <= depth_y {
            Some(Collision { normal: Vec2 { x: nx, y: 0 }, penetration: depth_x })
        } else {
            Some(Collision { normal: Vec2 { x: 0, y: ny }, penetration: depth_y })
        }
    }
}

proof fn lemma_unit_times(n: int, p: int)
    ensures
        n == 0 ==> n * p == 0,
        n == 1 ==> n * p == p,
        n == -1 ==> n * p == -p,
{
    assert(n == 0 ==> n * p == 0) by (nonlinear_arith);
    assert(n == 1 ==> n * p == p) by (nonlinear_arith);
    assert(n == -1 ==> n * p == -p) by (nonlinear_arith);
}

/// Moving the first of two overlapping colliders by `-normal * penetration`
/// leaves the pair without overlap.
pub proof fn lemma_resolution_separates(a: Collider, b: Collider)
    requires
        a.wf(),
        b.wf(),
        a.overlaps(&b),
    ensures
        !a.overlaps_shifted(
            -a.normal_x(&b) * a.penetration(&b),
            -a.normal_y(&b) * a.penetration(&b),
            &b,
        ),
{
    let p = a.penetration(&b);
    let dx = -a.normal_x(&b) * p;
    let dy = -a.normal_y(&b) * p;
    lemma_unit_times(-a.normal_x(&b), p);
    lemma_unit_times(-a.normal_y(&b), p);
    if a.resolves_along_x(&b) {
        assert(dy == 0);
        if a.push_left(&b) <= a.push_right(&b) {
            assert(dx == -a.push_left(&b));
            assert(a.right() + dx == b.left());
        } else {
            assert(a.normal_x(&b) == -1);
            assert(dx == a.push_right(&b));
            assert(a.left() + dx == b.right());
        }
    } else {
        assert(dx == 0);
        if a.push_down(&b) <= a.push_up(&b) {
            assert(dy == -a.push_down(&b));
            assert(a.top() + dy == b.bottom());
        } else {
            assert(a.normal_y(&b) == -1);
            assert(dy == a.push_up(&b));
            assert(a.bottom() + dy == b.top());
        }
    }
}

/// Among `others`, the collision of `c` with the largest penetration; on a tie the
/// last one wins.
pub fn deepest_collision(c: &Collider, others: &Vec<Collider>) -> (r: Option<Collision>)
    requires
        c.wf(),
        forall|i: int| 0 <= i < others@.len() ==> (#[trigger] others@[i]).wf(),
    ensures
        r is None <==> forall|i: int| 0 <= i < others@.len() ==> !c.overlaps(&#[trigger] others@[i]),
        r matches Some(col) ==> {
            &&& exists|i: int|
                0 <= i < others@.len() && c.overlaps(&others@[i]) && #[trigger] c.is_collision_with(
                    &others@[i],
                    col,
                )
            &&& forall|j: int|
                0 <= j < others@.len() && c.overlaps(&#[trigger] others@[j]) ==> c.penetration(
                    &others@[j],
                ) <= col.penetration
        },
{
    let mut best: Option<Collision> = None;
    let mut i: usize = 0;
    while i < others.len()
        invariant
            i <= others@.len(),
            c.wf(),
            forall|k: int| 0 <= k < others@.len() ==> (#[trigger] others@[k]).wf(),
            best is None <==> forall|k: int| 0 <= k < i ==> !c.overlaps(&#[trigger] others@[k]),
            best matches Some(col) ==> {
                &&& exists|k: int|
                    0 <= k < i && c.overlaps(&others@[k]) && #[trigger] c.is_collision_with(
                        &others@[k],
                        col,
                    )
                &&& forall|j: int|
                    0 <= j < i && c.overlaps(&#[trigger] others@[j]) ==> c.penetration(&others@[j])
                        <= col.penetration
            },
        decreases others@.len() - i,
    {
        let found = c.collide(&others[i]);
        match found {
            Some(col) => {
                let better = match best {
                    None => true,
                    Some(prev) => prev.penetration <= col.penetration,
                };
                if better {
                    best = Some(col);
                }
            },
            None => {},
        }
        i = i + 1;
    }
    best
}

/// The largest integer whose square does not exceed `n`.
pub fn isqrt(n: u64) -> (r: u64)
    ensures
        r * r <= n < (r + 1) * (r + 1),
{
    let mut lo: u128 = 0;
    let mut hi: u128 = 0x1_0000_0000;
    assert(hi * hi == 0x1_0000_0000_0000_0000) by (nonlinear_arith)
        requires
            hi == 0x1_0000_0000,
    ;
    while hi - lo > 1
        invariant
            lo < hi <= 0x1_0000_0000,
            lo * lo <= n,
            n < hi * hi,
        decreases hi - lo,
    {
        let mid = lo + (hi - lo) / 2;
        assert(mid * mid <= 0x1_0000_0000_0000_0000) by (nonlinear_arith)
            requires
                mid <= 0x1_0000_0000,
        ;
        if mid * mid <= n as u128 {
            lo = mid;
        } else {
            hi = mid;
        }
    }
    assert(lo <= 0xFFFF_FFFF);
    lo as u64
}

/// The largest integer whose square does not exceed `n`, for `n` below 2^124.
pub fn isqrt_wide(n: u128) -> (r: u128)
    requires
        n < 0x1000_0000_0000_0000_0000_0000_0000_0000,
    ensures
        r * r <= n < (r + 1) * (r + 1),
        r < 0x4000_0000_0000_0000,
{
    let mut lo: u128 = 0;
    let mut hi: u128 = 0x4000_0000_0000_0000;
    assert(hi * hi == 0x1000_0000_0000_0000_0000_0000_0000_0000) by (nonlinear_arith)
        requires
            hi == 0x4000_0000_0000_0000,
    ;
    while hi - lo > 1
        invariant
            lo < hi <= 0x4000_0000_0000_0000,
            lo * lo <= n,
            n < hi * hi,
        decreases hi - lo,
    {
        let mid = lo + (hi - lo) / 2;
        assert(mid * mid <= 0x1000_0000_0000_0000_0000_0000_0000_0000) by (nonlinear_arith)
            requires
                mid <= 0x4000_0000_0000_0000,
        ;
        if mid * mid <= n {
            lo = mid;
        } else {
            hi = mid;
        }
    }
    lo
}

/// A disc given by its centre and its radius.
#[derive(Debug, Clone, Copy, PartialEq, Eq, Structural)]
pub struct Ball {
    pub center: Vec2,
    pub radius: i64,
}

/// Whether `c` is the contact of ball `a` against ball `b`: along the line of
/// the centres, by the overlap of the radii.
pub open spec fn is_ball_contact(a: Ball, b: Ball, c: Contact) -> bool {
    &&& c.direction.x == b.center.x - a.center.x
    &&& c.direction.y == b.center.y - a.center.y
    &&& c.distance * c.distance <= dist2(a.center, b.center) < (c.distance + 1) * (c.distance + 1)
    &&& c.penetration == a.radius + b.radius - c.distance
}

/// Whether `c` is the contact of ball `b` against rectangle `r`: with the centre
/// outside `r`, a push away from the closest point of `r`; with the centre
/// inside, the push of the ball's bounding box out of `r` (distance 1, unit
/// direction).
pub open spec fn is_ball_rect_contact(b: Ball, r: Collider, c: Contact) -> bool {
    let dx = b.closest_x(&r) - b.center.x;
    let dy = b.closest_y(&r) - b.center.y;
    if dx == 0 && dy == 0 {
        let bb = bounding_box(b);
        &&& c.direction.x == bb.normal_x(&r)
        &&& c.direction.y == bb.normal_y(&r)
        &&& c.distance == 1
        &&& c.penetration == bb.penetration(&r)
    } else {
        &&& c.direction.x == dx
        &&& c.direction.y == dy
        &&& c.distance * c.distance <= dx * dx + dy * dy < (c.distance + 1) * (c.distance + 1)
        &&& c.penetration == b.radius - c.distance
        &&& c.penetration > 0
    }
}

/// The rectangle bounding a ball.
pub open spec fn bounding_box(b: Ball) -> Collider {
    Collider { position: b.center, half_width: b.radius, half_height: b.radius }
}

/// Square of the distance between two points.
pub open spec fn dist2(a: Vec2, b: Vec2) -> int {
    (b.x - a.x) * (b.x - a.x) + (b.y - a.y) * (b.y - a.y)
}

/// `v` clamped into `[lo, hi]`.
pub open spec fn clamp_to(v: int, lo: int, hi: int) -> int {
    if v < lo {
        lo
    } else if v > hi {
        hi
    } else {
        v
    }
}

/// Separation of two overlapping shapes: the first moves by
/// `-direction * penetration / distance` to clear the second.
#[derive(Debug, Clone, Copy, PartialEq, Eq, Structural)]
pub struct Contact {
    /// Points from the first shape toward the second.
    pub direction: Vec2,
    /// The length of `direction`, rounded down.
    pub distance: i64,
    pub penetration: i64,
}

impl Ball {
    pub open spec fn wf(&self) -> bool {
        self.center.wf() && 0 <= self.radius <= LIMIT
    }

    /// Whether two balls overlap with a positive area.
    pub open spec fn overlaps_ball(&self, other: &Ball) -> bool {
        dist2(self.center, other.center) < (self.radius + other.radius) * (self.radius
            + other.radius)
    }

    /// The point of `r` closest to the centre of the ball.
    pub open spec fn closest_x(&self, r: &Collider) -> int {
        clamp_to(self.center.x as int, r.left(), r.right())
    }

    pub open spec fn closest_y(&self, r: &Collider) -> int {
        clamp_to(self.center.y as int, r.bottom(), r.top())
    }

    /// Whether the ball and the rectangle overlap with a positive area.
    pub open spec fn overlaps_rect(&self, r: &Collider) -> bool {
        let dx = self.center.x - self.closest_x(r);
        let dy = self.center.y - self.closest_y(r);
        dx * dx + dy * dy < self.radius * self.radius
    }

    pub fn check_ball(&self, other: &Ball) -> (res: bool)
        requires
            self.wf(),
            other.wf(),
        ensures
            res == self.overlaps_ball(other),
    {
        let (d2, rr) = ball_distances(self, other);
        d2 < rr
    }

    pub fn check_rect(&self, r: &Collider) -> (res: bool)
        requires
            self.wf(),
            r.wf(),
        ensures
            res == self.overlaps_rect(r),
    {
        let a = r.compute_aabb();
        let qx = if self.center.x < a.min.x {
            a.min.x
        } else if self.center.x > a.max.x {
            a.max.x
        } else {
            self.center.x
        };
        let qy = if self.center.y < a.min.y {
            a.min.y
        } else if self.center.y > a.max.y {
            a.max.y
        } else {
            self.center.y
        };
        let dx = self.center.x as i128 - qx as i128;
        let dy = self.center.y as i128 - qy as i128;
        let rad = self.radius as i128;
        proof {
            lemma_square_bound(dx as int);
            lemma_square_bound(dy as int);
            lemma_square_bound(rad as int);
        }
        dx * dx + dy * dy < rad * rad
    }

    /// The separation of two balls, or `None` when they do not overlap.
    pub fn collide_ball(&self, other: &Ball) -> (res: Option<Contact>)
        requires
            self.wf(),
            other.wf(),
        ensures
            res is Some <==> self.overlaps_ball(other),
            !self.overlaps_ball(other) ==> res is None,
            res matches Some(c) ==> is_ball_contact(*self, *other, c) && c.penetration > 0,
    {
        let (d2, rr) = ball_distances(self, other);
        if d2 >= rr {
            return None;
        }
        let dist = isqrt(d2 as u64);
        let rsum = self.radius + other.radius;
        proof {
            assert(rsum > 0) by (nonlinear_arith)
                requires
                    rsum >= 0,
                    rsum * rsum > 0,
            ;
            lemma_root_below(dist as int, d2 as int, rsum as int);
        }
        Some(
            Contact {
                direction: Vec2 {
                    x: other.center.x - self.center.x,
                    y: other.center.y - self.center.y,
                },
                distance: dist as i64,
                penetration: rsum - dist as i64,
            },
        )
    }
}

proof fn lemma_square_bound(x: int)
    requires
        -2 * LIMIT <= x <= 2 * LIMIT,
    ensures
        0 <= x * x <= 4 * LIMIT * LIMIT,
{
    assert(0 <= x * x <= 4 * LIMIT * LIMIT) by (nonlinear_arith)
        requires
            -2 * LIMIT <= x <= 2 * LIMIT,
    ;
}

/// Where `d * d <= n < s * s` with `s` positive, `d < s`.
proof fn lemma_root_below(d: int, n: int, s: int)
    requires
        0 <= d,
        0 < s,
        d * d <= n,
        n < s * s,
    ensures
        d < s,
{
    if d >= s {
        assert(d * d >= s * s) by (nonlinear_arith)
            requires
                d >= s,
                s > 0,
        ;
    }
}

impl Ball {
    /// The separation of the ball from the rectangle `r`, or `None` when they do
    /// not overlap. With its centre outside `r`, the ball is pushed away from the
    /// closest point of `r`; with its centre inside, its bounding box is pushed
    /// out of `r` along the axis of least penetration (distance 1, unit direction).
    pub fn collide_rect(&self, r: &Collider) -> (res: Option<Contact>)
        requires
            self.wf(),
            r.wf(),
        ensures
            res is Some <==> self.overlaps_rect(r),
            !self.overlaps_rect(r) ==> res is None,
            res matches Some(c) ==> is_ball_rect_contact(*self, *r, c) && -4 * LIMIT
                <= c.direction.x <= 4 * LIMIT && -4 * LIMIT <= c.direction.y <= 4 * LIMIT,
    {
        if !self.check_rect(r) {
            return None;
        }
        let a = r.compute_aabb();
        let qx = if self.center.x < a.min.x {
            a.min.x
        } else if self.center.x > a.max.x {
            a.max.x
        } else {
            self.center.x
        };
        let qy = if self.center.y < a.min.y {
            a.min.y
        } else if self.center.y > a.max.y {
            a.max.y
        } else {
            self.center.y
        };
        let dx = qx - self.center.x;
        let dy = qy - self.center.y;
        if dx == 0 && dy == 0 {
            let bb = Collider::rect(self.center, self.radius, self.radius);
            proof {
                assert(bb == bounding_box(*self));
                assert(bb.overlaps(r));
            }
            match bb.collide(r) {
                Some(c) => Some(Contact { direction: c.normal, distance: 1, penetration: c.penetration }),
                None => None,
            }
        } else {
            let dxw = dx as i128;
            let dyw = dy as i128;
            proof {
                lemma_square_bound(dxw as int);
                lemma_square_bound(dyw as int);
                lemma_square_bound(self.radius as int);
            }
            let d2 = dxw * dxw + dyw * dyw;
            let dist = isqrt(d2 as u64);
            proof {
                assert(qx == self.closest_x(r));
                assert(qy == self.closest_y(r));
                let ex = self.center.x - qx;
                let ey = self.center.y - qy;
                assert(d2 == ex * ex + ey * ey) by (nonlinear_arith)
                    requires
                        d2 == dxw * dxw + dyw * dyw,
                        dxw == -ex,
                        dyw == -ey,
                ;
                assert(self.radius > 0) by (nonlinear_arith)
                    requires
                        self.radius >= 0,
                        d2 < self.radius * self.radius,
                        d2 >= 0,
                ;
                lemma_root_below(dist as int, d2 as int, self.radius as int);
            }
            Some(Contact { direction: Vec2 { x: dx, y: dy }, distance: dist as i64, penetration: self.radius - dist as i64 })
        }
    }
}

fn ball_distances(a: &Ball, b: &Ball) -> (r: (i128, i128))
    requires
        a.wf(),
        b.wf(),
    ensures
        r.0 == dist2(a.center, b.center),
        r.1 == (a.radius + b.radius) * (a.radius + b.radius),
        0 <= r.0 <= 8 * LIMIT * LIMIT,
        0 <= r.1,
{
    let dx = b.center.x as i128 - a.center.x as i128;
    let dy = b.center.y as i128 - a.center.y as i128;
    let rs = a.radius as i128 + b.radius as i128;
    proof {
        lemma_square_bound(dx as int);
        lemma_square_bound(dy as int);
        lemma_square_bound(rs as int);
    }
    (dx * dx + dy * dy, rs * rs)
}

} // verus!

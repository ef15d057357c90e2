//! Rectangles turned by an angle, and the separating-axis test between them.
//!
//! The angle is given by an integer direction `axis` whose length `axis_len`
//! is an integer too (a Pythagorean triple), so every test is exact.
use vstd::prelude::*;

use crate::collider::{bounding_box, clamp_to, isqrt_wide, Ball, Collider, Contact, Vec2};
use crate::fixed::LIMIT;

verus! {

/// Largest length of the direction vector of a tilted box.
pub const AXIS_LIMIT: i64 = 4096;

/// A rectangle centred at `center`, reaching `half_width` along `axis` and
/// `half_height` along `axis` turned a quarter left.
#[derive(Debug, Clone, Copy, PartialEq, Eq, Structural)]
pub struct TiltedBox {
    pub center: Vec2,
    pub half_width: i64,
    pub half_height: i64,
    pub axis: Vec2,
    pub axis_len: i64,
}

pub open spec fn dot(ax: int, ay: int, bx: int, by: int) -> int {
    ax * bx + ay * by
}

pub open spec fn abs_int(x: int) -> int {
    if x < 0 {
        -x
    } else {
        x
    }
}

impl TiltedBox {
    pub open spec fn wf(&self) -> bool {
        &&& self.center.wf()
        &&& 0 <= self.half_width <= LIMIT
        &&& 0 <= self.half_height <= LIMIT
        &&& 1 <= self.axis_len <= AXIS_LIMIT
        &&& -self.axis_len <= self.axis.x <= self.axis_len
        &&& -self.axis_len <= self.axis.y <= self.axis_len
        &&& self.axis.x * self.axis.x + self.axis.y * self.axis.y == self.axis_len
            * self.axis_len
    }

    /// Half the extent of the box along `(wx, wy)`, times `axis_len` and the
    /// length of `(wx, wy)`.
    pub open spec fn reach(&self, wx: int, wy: int) -> int {
        self.half_width * abs_int(dot(self.axis.x as int, self.axis.y as int, wx, wy))
            + self.half_height * abs_int(dot(-self.axis.y, self.axis.x as int, wx, wy))
    }

    /// The same rectangle as an axis-aligned collider.
    pub open spec fn of_rect(c: Collider) -> TiltedBox {
        TiltedBox {
            center: c.position,
            half_width: c.half_width,
            half_height: c.half_height,
            axis: Vec2 { x: 1, y: 0 },
            axis_len: 1,
        }
    }

    pub fn from_rect(c: &Collider) -> (r: TiltedBox)
        requires
            c.wf(),
        ensures
            r == TiltedBox::of_rect(*c),
            r.wf(),
    {
        TiltedBox {
            center: c.position,
            half_width: c.half_width,
            half_height: c.half_height,
            axis: Vec2 { x: 1, y: 0 },
            axis_len: 1,
        }
    }
}

/// Candidate separating direction `k` (0 to 3): the two edge directions of `a`,
/// then those of `b`.
pub open spec fn sat_axis_x(a: TiltedBox, b: TiltedBox, k: int) -> int {
    if k == 0 {
        a.axis.x as int
    } else if k == 1 {
        -a.axis.y
    } else if k == 2 {
        b.axis.x as int
    } else {
        -b.axis.y
    }
}

pub open spec fn sat_axis_y(a: TiltedBox, b: TiltedBox, k: int) -> int {
    if k == 0 {
        a.axis.y as int
    } else if k == 1 {
        a.axis.x as int
    } else if k == 2 {
        b.axis.y as int
    } else {
        b.axis.x as int
    }
}

/// Length of candidate direction `k`.
pub open spec fn sat_len(a: TiltedBox, b: TiltedBox, k: int) -> int {
    if k < 2 {
        a.axis_len as int
    } else {
        b.axis_len as int
    }
}

/// Projection of the centre offset from `a` to `b` on direction `k`.
pub open spec fn sat_offset(a: TiltedBox, b: TiltedBox, k: int) -> int {
    dot(
        b.center.x - a.center.x,
        b.center.y - a.center.y,
        sat_axis_x(a, b, k),
        sat_axis_y(a, b, k),
    )
}

/// How far the projections of `a` and `b` on direction `k` overlap, times
/// `a.axis_len * b.axis_len * sat_len(a, b, k)`; not positive when direction `k`
/// separates them.
pub open spec fn sat_gap(a: TiltedBox, b: TiltedBox, k: int) -> int {
    let wx = sat_axis_x(a, b, k);
    let wy = sat_axis_y(a, b, k);
    a.reach(wx, wy) * b.axis_len + b.reach(wx, wy) * a.axis_len - abs_int(sat_offset(a, b, k))
        * a.axis_len * b.axis_len
}

/// Whether no edge direction separates the boxes: they overlap with a positive
/// area.
pub open spec fn tilted_overlap(a: TiltedBox, b: TiltedBox) -> bool {
    sat_gap(a, b, 0) > 0 && sat_gap(a, b, 1) > 0 && sat_gap(a, b, 2) > 0 && sat_gap(a, b, 3) > 0
}

/// Whether direction `i` needs a strictly shorter push than direction `j`.
pub open spec fn sat_shorter(a: TiltedBox, b: TiltedBox, i: int, j: int) -> bool {
    sat_gap(a, b, i) * sat_len(a, b, j) < sat_gap(a, b, j) * sat_len(a, b, i)
}

/// The direction of the shortest push; the first of equal ones.
pub open spec fn sat_best(a: TiltedBox, b: TiltedBox) -> int {
    let b1 = if sat_shorter(a, b, 1, 0) {
        1int
    } else {
        0
    };
    let b2 = if sat_shorter(a, b, 2, b1) {
        2int
    } else {
        b1
    };
    if sat_shorter(a, b, 3, b2) {
        3int
    } else {
        b2
    }
}

/// The contact of two overlapping tilted boxes: along the direction of the
/// shortest push, pointing from `a` toward `b`, the push rounded up.
pub open spec fn tilted_contact(a: TiltedBox, b: TiltedBox) -> Contact {
    let k = sat_best(a, b);
    let forward = sat_offset(a, b, k) >= 0;
    let den = a.axis_len * b.axis_len * sat_len(a, b, k);
    Contact {
        direction: Vec2 {
            x: (if forward {
                sat_axis_x(a, b, k)
            } else {
                -sat_axis_x(a, b, k)
            }) as i64,
            y: (if forward {
                sat_axis_y(a, b, k)
            } else {
                -sat_axis_y(a, b, k)
            }) as i64,
        },
        distance: sat_len(a, b, k) as i64,
        penetration: ((sat_gap(a, b, k) + den - 1) / den) as i64,
    }
}

pub proof fn lemma_mul_bound(a: int, b: int, ma: int, mb: int)
    requires
        -ma <= a <= ma,
        -mb <= b <= mb,
    ensures
        -(ma * mb) <= a * b <= ma * mb,
{
    assert(-(ma * mb) <= a * b <= ma * mb) by (nonlinear_arith)
        requires
            -ma <= a <= ma,
            -mb <= b <= mb,
    ;
}

/// Two vectors of lengths `l` and `lw` have a dot product of at most `l * lw`.
proof fn lemma_dot_bound(ax: int, ay: int, wx: int, wy: int, l: int, lw: int)
    requires
        ax * ax + ay * ay == l * l,
        wx * wx + wy * wy == lw * lw,
        l >= 0,
        lw >= 0,
    ensures
        abs_int(ax * wx + ay * wy) <= l * lw,
{
    let d = ax * wx + ay * wy;
    let c = ax * wy - ay * wx;
    let (p, q, r, t) = (ax * wx, ay * wy, ax * wy, ay * wx);
    assert((p + q) * (p + q) == p * p + 2 * (p * q) + q * q) by (nonlinear_arith);
    assert((r - t) * (r - t) == r * r - 2 * (r * t) + t * t) by (nonlinear_arith);
    assert(p * q == r * t) by (nonlinear_arith)
        requires
            p == ax * wx,
            q == ay * wy,
            r == ax * wy,
            t == ay * wx,
    ;
    assert(p * p == (ax * ax) * (wx * wx)) by (nonlinear_arith)
        requires
            p == ax * wx,
    ;
    assert(q * q == (ay * ay) * (wy * wy)) by (nonlinear_arith)
        requires
            q == ay * wy,
    ;
    assert(r * r == (ax * ax) * (wy * wy)) by (nonlinear_arith)
        requires
            r == ax * wy,
    ;
    assert(t * t == (ay * ay) * (wx * wx)) by (nonlinear_arith)
        requires
            t == ay * wx,
    ;
    let (pa, pb, pc, pd) = (ax * ax, ay * ay, wx * wx, wy * wy);
    assert((pa + pb) * (pc + pd) == pa * pc + pb * pd + pa * pd + pb * pc) by (nonlinear_arith);
    assert(d * d + c * c == (ax * ax + ay * ay) * (wx * wx + wy * wy));
    assert(c * c >= 0) by (nonlinear_arith);
    if abs_int(d) > l * lw {
        assert(abs_int(d) * abs_int(d) > (l * lw) * (l * lw)) by (nonlinear_arith)
            requires
                abs_int(d) > l * lw,
                l * lw >= 0,
        ;
        assert(abs_int(d) * abs_int(d) == d * d) by (nonlinear_arith);
        assert((l * lw) * (l * lw) == (l * l) * (lw * lw)) by (nonlinear_arith);
    }
}

fn iabs(x: i128) -> (r: i128)
    requires
        x > i128::MIN,
    ensures
        r == abs_int(x as int),
{
    if x < 0 {
        -x
    } else {
        x
    }
}

/// `reach` of `t` along `(wx, wy)`.
fn reach_of(t: &TiltedBox, wx: i128, wy: i128, lw: i128) -> (r: i128)
    requires
        t.wf(),
        -AXIS_LIMIT <= wx <= AXIS_LIMIT,
        -AXIS_LIMIT <= wy <= AXIS_LIMIT,
        1 <= lw <= AXIS_LIMIT,
        wx * wx + wy * wy == lw * lw,
    ensures
        r == t.reach(wx as int, wy as int),
        0 <= r <= (t.half_width + t.half_height) * (t.axis_len * lw),
{
    let ax = t.axis.x as i128;
    let ay = t.axis.y as i128;
    let nay = -ay;
    proof {
        lemma_mul_bound(ax as int, wx as int, AXIS_LIMIT as int, AXIS_LIMIT as int);
        lemma_mul_bound(ay as int, wy as int, AXIS_LIMIT as int, AXIS_LIMIT as int);
        lemma_mul_bound(nay as int, wx as int, AXIS_LIMIT as int, AXIS_LIMIT as int);
        lemma_mul_bound(ax as int, wy as int, AXIS_LIMIT as int, AXIS_LIMIT as int);
        lemma_dot_bound(ax as int, ay as int, wx as int, wy as int, t.axis_len as int, lw as int);
        assert(nay * nay == ay * ay) by (nonlinear_arith)
            requires
                nay == -ay,
        ;
        lemma_dot_bound(nay as int, ax as int, wx as int, wy as int, t.axis_len as int, lw as int);
    }
    let du = iabs(ax * wx + ay * wy);
    let dv = iabs(nay * wx + ax * wy);
    let hw = t.half_width as i128;
    let hh = t.half_height as i128;
    let ghost m = t.axis_len * lw;
    proof {
        lemma_mul_bound(hw as int, du as int, LIMIT as int, 2 * AXIS_LIMIT * AXIS_LIMIT);
        lemma_mul_bound(hh as int, dv as int, LIMIT as int, 2 * AXIS_LIMIT * AXIS_LIMIT);
        assert(0 <= hw * du <= hw * m && 0 <= hh * dv <= hh * m) by (nonlinear_arith)
            requires
                hw >= 0,
                du >= 0,
                hh >= 0,
                dv >= 0,
                du <= m,
                dv <= m,
        ;
        assert(hw * m + hh * m == (hw + hh) * m) by (nonlinear_arith);
    }
    hw * du + hh * dv
}

/// `sat_gap` for direction `k`, and the offset projected on it.
fn gap_of(a: &TiltedBox, b: &TiltedBox, k: u8) -> (r: (i128, i128))
    requires
        a.wf(),
        b.wf(),
        k < 4,
    ensures
        r.0 == sat_gap(*a, *b, k as int),
        r.1 == sat_offset(*a, *b, k as int),
        r.0 <= 4 * LIMIT * (a.axis_len * b.axis_len * sat_len(*a, *b, k as int)),
        -0x40_0000_0000_0000_0000 <= r.0 <= 0x40_0000_0000_0000_0000,
{
    let (wx, wy, lw) = if k == 0 {
        (a.axis.x as i128, a.axis.y as i128, a.axis_len as i128)
    } else if k == 1 {
        (-(a.axis.y as i128), a.axis.x as i128, a.axis_len as i128)
    } else if k == 2 {
        (b.axis.x as i128, b.axis.y as i128, b.axis_len as i128)
    } else {
        (-(b.axis.y as i128), b.axis.x as i128, b.axis_len as i128)
    };
    proof {
        assert(a.axis.y * a.axis.y == (-a.axis.y) * (-a.axis.y)) by (nonlinear_arith);
        assert(b.axis.y * b.axis.y == (-b.axis.y) * (-b.axis.y)) by (nonlinear_arith);
    }
    let ra = reach_of(a, wx, wy, lw);
    let rb = reach_of(b, wx, wy, lw);
    let dx = b.center.x as i128 - a.center.x as i128;
    let dy = b.center.y as i128 - a.center.y as i128;
    proof {
        lemma_mul_bound(dx as int, wx as int, 2 * LIMIT, AXIS_LIMIT as int);
        lemma_mul_bound(dy as int, wy as int, 2 * LIMIT, AXIS_LIMIT as int);
    }
    let d = dx * wx + dy * wy;
    let la = a.axis_len as i128;
    let lb = b.axis_len as i128;
    let ad = iabs(d);
    proof {
        let m = la * lw;
        lemma_mul_bound(la as int, lw as int, AXIS_LIMIT as int, AXIS_LIMIT as int);
        lemma_mul_bound(lb as int, lw as int, AXIS_LIMIT as int, AXIS_LIMIT as int);
        assert(ra <= 2 * LIMIT * (AXIS_LIMIT * AXIS_LIMIT)) by (nonlinear_arith)
            requires
                ra <= (a.half_width + a.half_height) * (a.axis_len * lw),
                0 <= a.half_width + a.half_height <= 2 * LIMIT,
                1 <= a.axis_len <= AXIS_LIMIT,
                1 <= lw <= AXIS_LIMIT,
        ;
        assert(rb <= 2 * LIMIT * (AXIS_LIMIT * AXIS_LIMIT)) by (nonlinear_arith)
            requires
                rb <= (b.half_width + b.half_height) * (b.axis_len * lw),
                0 <= b.half_width + b.half_height <= 2 * LIMIT,
                1 <= b.axis_len <= AXIS_LIMIT,
                1 <= lw <= AXIS_LIMIT,
        ;
        lemma_mul_bound(
            ra as int,
            lb as int,
            2 * LIMIT * (AXIS_LIMIT * AXIS_LIMIT),
            AXIS_LIMIT as int,
        );
        lemma_mul_bound(
            rb as int,
            la as int,
            2 * LIMIT * (AXIS_LIMIT * AXIS_LIMIT),
            AXIS_LIMIT as int,
        );
        lemma_mul_bound(ad as int, la as int, 4 * LIMIT * AXIS_LIMIT, AXIS_LIMIT as int);
        lemma_mul_bound(ad * la, lb as int, 4 * LIMIT * AXIS_LIMIT * AXIS_LIMIT, AXIS_LIMIT as int);
        assert(ra * lb + rb * la <= 4 * LIMIT * (la * lb * lw)) by (nonlinear_arith)
            requires
                0 <= ra <= (a.half_width + a.half_height) * (la * lw),
                0 <= rb <= (b.half_width + b.half_height) * (lb * lw),
                0 <= a.half_width + a.half_height <= 2 * LIMIT,
                0 <= b.half_width + b.half_height <= 2 * LIMIT,
                la >= 1,
                lb >= 1,
                lw >= 1,
        ;
        assert(ad * la * lb >= 0) by (nonlinear_arith)
            requires
                ad >= 0,
                la >= 1,
                lb >= 1,
        ;
    }
    (ra * lb + rb * la - ad * la * lb, d)
}

impl TiltedBox {
    /// Separating-axis overlap test.
    pub fn check(&self, other: &TiltedBox) -> (r: bool)
        requires
            self.wf(),
            other.wf(),
        ensures
            r == tilted_overlap(*self, *other),
    {
        gap_of(self, other, 0).0 > 0 && gap_of(self, other, 1).0 > 0 && gap_of(self, other, 2).0
            > 0 && gap_of(self, other, 3).0 > 0
    }

    /// The shortest push separating `self` from `other`, or `None` when they do
    /// not overlap.
    pub fn collide(&self, other: &TiltedBox) -> (r: Option<Contact>)
        requires
            self.wf(),
            other.wf(),
        ensures
            r is Some <==> tilted_overlap(*self, *other),
            !tilted_overlap(*self, *other) ==> r is None,
            r matches Some(c) ==> c == tilted_contact(*self, *other) && 0 < c.penetration <= 4
                * LIMIT && 1 <= c.distance <= AXIS_LIMIT && -AXIS_LIMIT <= c.direction.x
                <= AXIS_LIMIT && -AXIS_LIMIT <= c.direction.y <= AXIS_LIMIT,
    {
        let (g0, o0) = gap_of(self, other, 0);
        let (g1, o1) = gap_of(self, other, 1);
        let (g2, o2) = gap_of(self, other, 2);
        let (g3, o3) = gap_of(self, other, 3);
        if !(g0 > 0 && g1 > 0 && g2 > 0 && g3 > 0) {
            return None;
        }
        let la = self.axis_len as i128;
        let lb = other.axis_len as i128;
        proof {
            lemma_mul_bound(g0 as int, la as int, 0x40_0000_0000_0000_0000, AXIS_LIMIT as int);
            lemma_mul_bound(g1 as int, la as int, 0x40_0000_0000_0000_0000, AXIS_LIMIT as int);
            lemma_mul_bound(g2 as int, lb as int, 0x40_0000_0000_0000_0000, AXIS_LIMIT as int);
            lemma_mul_bound(g3 as int, lb as int, 0x40_0000_0000_0000_0000, AXIS_LIMIT as int);
            lemma_mul_bound(g0 as int, lb as int, 0x40_0000_0000_0000_0000, AXIS_LIMIT as int);
            lemma_mul_bound(g1 as int, lb as int, 0x40_0000_0000_0000_0000, AXIS_LIMIT as int);
            lemma_mul_bound(g2 as int, la as int, 0x40_0000_0000_0000_0000, AXIS_LIMIT as int);
            lemma_mul_bound(g3 as int, la as int, 0x40_0000_0000_0000_0000, AXIS_LIMIT as int);
        }
        // Direction lengths: 0 and 1 have `la`, 2 and 3 have `lb`.
        let (mut k, mut g, mut o, mut len) = (0u8, g0, o0, la);
        let ghost (sa, sb) = (*self, *other);
        if g1 * len < g * la {
            k = 1;
            g = g1;
            o = o1;
            len = la;
        }
        let ghost b1 = if sat_shorter(sa, sb, 1, 0) {
            1int
        } else {
            0
        };
        assert(k as int == b1 && g == sat_gap(sa, sb, b1) && o == sat_offset(sa, sb, b1) && len
            == sat_len(sa, sb, b1));
        if g2 * len < g * lb {
            k = 2;
            g = g2;
            o = o2;
            len = lb;
        }
        let ghost b2 = if sat_shorter(sa, sb, 2, b1) {
            2int
        } else {
            b1
        };
        assert(k as int == b2 && g == sat_gap(sa, sb, b2) && o == sat_offset(sa, sb, b2) && len
            == sat_len(sa, sb, b2));
        proof {
            lemma_mul_bound(g as int, lb as int, 0x40_0000_0000_0000_0000, AXIS_LIMIT as int);
        }
        if g3 * len < g * lb {
            k = 3;
            g = g3;
            o = o3;
            len = lb;
        }
        assert(k as int == sat_best(sa, sb) && g == sat_gap(sa, sb, k as int) && o == sat_offset(
            sa,
            sb,
            k as int,
        ) && len == sat_len(sa, sb, k as int));
        let (wx, wy) = if k == 0 {
            (self.axis.x, self.axis.y)
        } else if k == 1 {
            (-self.axis.y, self.axis.x)
        } else if k == 2 {
            (other.axis.x, other.axis.y)
        } else {
            (-other.axis.y, other.axis.x)
        };
        let (wx, wy) = if o >= 0 {
            (wx, wy)
        } else {
            (-wx, -wy)
        };
        proof {
            lemma_mul_bound(la as int, lb as int, AXIS_LIMIT as int, AXIS_LIMIT as int);
            lemma_mul_bound(la * lb, len as int, AXIS_LIMIT * AXIS_LIMIT, AXIS_LIMIT as int);
            assert(la * lb * len >= 1) by (nonlinear_arith)
                requires
                    la >= 1,
                    lb >= 1,
                    len >= 1,
            ;
        }
        let den = la * lb * len;
        let pen = (g + den - 1) / den;
        proof {
            assert(pen >= 1) by (nonlinear_arith)
                requires
                    g >= 1,
                    den >= 1,
                    pen == (g + den - 1) / (den as int),
            ;
            assert(pen <= 4 * LIMIT) by (nonlinear_arith)
                requires
                    g >= 1,
                    den >= 1,
                    g <= 4 * LIMIT * den,
                    pen == (g + den - 1) / (den as int),
            ;
        }
        proof {
            let kk = k as int;
            assert(den == sa.axis_len * sb.axis_len * sat_len(sa, sb, kk));
        }
        Some(Contact { direction: Vec2 { x: wx, y: wy }, distance: len as i64, penetration: pen as i64 })
    }
}

/// The ball's centre in the frame of `t`, along `axis`, times `axis_len`.
pub open spec fn local_x(t: TiltedBox, b: Ball) -> int {
    dot(b.center.x - t.center.x, b.center.y - t.center.y, t.axis.x as int, t.axis.y as int)
}

/// The same along `axis` turned a quarter left.
pub open spec fn local_y(t: TiltedBox, b: Ball) -> int {
    dot(b.center.x - t.center.x, b.center.y - t.center.y, -t.axis.y, t.axis.x as int)
}

/// How far the ball's centre lies outside `t` in its frame, times `axis_len`.
pub open spec fn excess_x(t: TiltedBox, b: Ball) -> int {
    local_x(t, b) - clamp_to(
        local_x(t, b),
        -(t.half_width * t.axis_len),
        t.half_width * t.axis_len,
    )
}

pub open spec fn excess_y(t: TiltedBox, b: Ball) -> int {
    local_y(t, b) - clamp_to(
        local_y(t, b),
        -(t.half_height * t.axis_len),
        t.half_height * t.axis_len,
    )
}

/// Whether the ball and the tilted box overlap with a positive area: the
/// centre is closer to the box than the radius.
pub open spec fn ball_tilted_overlap(b: Ball, t: TiltedBox) -> bool {
    excess_x(t, b) * excess_x(t, b) + excess_y(t, b) * excess_y(t, b) < b.radius * b.radius * (
    t.axis_len * t.axis_len)
}

/// From the ball's centre toward the closest point of the box, times
/// `axis_len` squared.
pub open spec fn ball_tilted_dir_x(b: Ball, t: TiltedBox) -> int {
    -(excess_x(t, b) * t.axis.x + excess_y(t, b) * (-t.axis.y))
}

pub open spec fn ball_tilted_dir_y(b: Ball, t: TiltedBox) -> int {
    -(excess_x(t, b) * t.axis.y + excess_y(t, b) * t.axis.x)
}

/// Whether `c` is the contact of the ball against the box: with the centre
/// outside the box, a push away from the closest point; with it inside, a push
/// along `axis`, out through the nearer of the two sides across it, by the depth
/// of the centre (rounded up) plus the radius.
pub open spec fn is_ball_tilted_contact(b: Ball, t: TiltedBox, c: Contact) -> bool {
    if excess_x(t, b) == 0 && excess_y(t, b) == 0 {
        let lx = local_x(t, b);
        let depth = t.half_width * t.axis_len - abs_int(lx);
        &&& c.direction.x == (if lx >= 0 {
            -t.axis.x
        } else {
            t.axis.x as int
        })
        &&& c.direction.y == (if lx >= 0 {
            -t.axis.y
        } else {
            t.axis.y as int
        })
        &&& c.distance == t.axis_len
        &&& c.penetration == (depth + t.axis_len - 1) / (t.axis_len as int) + b.radius
    } else {
        let dx = ball_tilted_dir_x(b, t);
        let dy = ball_tilted_dir_y(b, t);
        &&& c.direction.x == dx
        &&& c.direction.y == dy
        &&& c.distance * c.distance <= dx * dx + dy * dy < (c.distance + 1) * (c.distance + 1)
        &&& c.penetration == b.radius - (c.distance as int) / (t.axis_len * t.axis_len)
    }
}

fn clamp_wide(v: i128, lo: i128, hi: i128) -> (r: i128)
    requires
        lo <= hi,
    ensures
        r == clamp_to(v as int, lo as int, hi as int),
{
    if v < lo {
        lo
    } else if v > hi {
        hi
    } else {
        v
    }
}

/// The ball's excess outside `t`, in the frame of `t`.
fn excess_of(t: &TiltedBox, b: &Ball) -> (r: (i128, i128))
    requires
        t.wf(),
        b.wf(),
    ensures
        r.0 == excess_x(*t, *b),
        r.1 == excess_y(*t, *b),
        -0x1_0000_0000_0000 <= r.0 <= 0x1_0000_0000_0000,
        -0x1_0000_0000_0000 <= r.1 <= 0x1_0000_0000_0000,
{
    let dx = b.center.x as i128 - t.center.x as i128;
    let dy = b.center.y as i128 - t.center.y as i128;
    let ax = t.axis.x as i128;
    let ay = t.axis.y as i128;
    let nay = -ay;
    proof {
        lemma_mul_bound(dx as int, ax as int, 2 * LIMIT, AXIS_LIMIT as int);
        lemma_mul_bound(dy as int, ay as int, 2 * LIMIT, AXIS_LIMIT as int);
        lemma_mul_bound(dx as int, nay as int, 2 * LIMIT, AXIS_LIMIT as int);
        lemma_mul_bound(dy as int, ax as int, 2 * LIMIT, AXIS_LIMIT as int);
    }
    let lx = dx * ax + dy * ay;
    let ly = dx * nay + dy * ax;
    let len = t.axis_len as i128;
    proof {
        lemma_mul_bound(t.half_width as int, len as int, LIMIT as int, AXIS_LIMIT as int);
        lemma_mul_bound(t.half_height as int, len as int, LIMIT as int, AXIS_LIMIT as int);
        assert(t.half_width * len >= 0 && t.half_height * len >= 0) by (nonlinear_arith)
            requires
                t.half_width >= 0,
                t.half_height >= 0,
                len >= 1,
        ;
    }
    let wx = t.half_width as i128 * len;
    let wy = t.half_height as i128 * len;
    let qx = clamp_wide(lx, -wx, wx);
    let qy = clamp_wide(ly, -wy, wy);
    (lx - qx, ly - qy)
}

impl Ball {
    /// Overlap test against a tilted box.
    pub fn check_tilted(&self, t: &TiltedBox) -> (r: bool)
        requires
            self.wf(),
            t.wf(),
        ensures
            r == ball_tilted_overlap(*self, *t),
    {
        let (ex, ey) = excess_of(t, self);
        let rad = self.radius as i128;
        let len = t.axis_len as i128;
        proof {
            lemma_mul_bound(ex as int, ex as int, 0x1_0000_0000_0000, 0x1_0000_0000_0000);
            lemma_mul_bound(ey as int, ey as int, 0x1_0000_0000_0000, 0x1_0000_0000_0000);
            lemma_mul_bound(rad as int, rad as int, LIMIT as int, LIMIT as int);
            lemma_mul_bound(len as int, len as int, AXIS_LIMIT as int, AXIS_LIMIT as int);
            lemma_mul_bound(rad * rad, len * len, LIMIT * LIMIT, AXIS_LIMIT * AXIS_LIMIT);
        }
        ex * ex + ey * ey < rad * rad * (len * len)
    }

    /// The push separating the ball from a tilted box, or `None` when they do
    /// not overlap.
    pub fn collide_tilted(&self, t: &TiltedBox) -> (r: Option<Contact>)
        requires
            self.wf(),
            t.wf(),
        ensures
            r is Some <==> ball_tilted_overlap(*self, *t),
            !ball_tilted_overlap(*self, *t) ==> r is None,
            r matches Some(c) ==> is_ball_tilted_contact(*self, *t, c) && -0x4000_0000_0000_0000
                <= c.direction.x <= 0x4000_0000_0000_0000 && -0x4000_0000_0000_0000 <= c.direction.y
                <= 0x4000_0000_0000_0000,
    {
        if !self.check_tilted(t) {
            return None;
        }
        let (ex, ey) = excess_of(t, self);
        let ax = t.axis.x as i128;
        let ay = t.axis.y as i128;
        if ex == 0 && ey == 0 {
            let dx = b_center_offset(t, self);
            let len = t.axis_len as i128;
            proof {
                lemma_mul_bound(t.half_width as int, len as int, LIMIT as int, AXIS_LIMIT as int);
            }
            let hwl = t.half_width as i128 * len;
            let alx = if dx < 0 {
                -dx
            } else {
                dx
            };
            // The centre is inside: |lx| <= half_width * axis_len.
            let depth = hwl - alx;
            proof {
                assert(0 <= depth <= hwl);
                assert((depth + len - 1) / (len as int) <= LIMIT + 1) by (nonlinear_arith)
                    requires
                        0 <= depth <= hwl,
                        hwl == t.half_width * len,
                        t.half_width <= LIMIT,
                        len >= 1,
                ;
                assert((depth + len - 1) / (len as int) >= 0) by (nonlinear_arith)
                    requires
                        0 <= depth,
                        len >= 1,
                ;
            }
            let pen = (depth + len - 1) / len + self.radius as i128;
            let (ux, uy) = if dx >= 0 {
                (-t.axis.x, -t.axis.y)
            } else {
                (t.axis.x, t.axis.y)
            };
            return Some(Contact { direction: Vec2 { x: ux, y: uy }, distance: t.axis_len, penetration: pen as i64 });
        }
        proof {
            lemma_mul_bound(ex as int, ax as int, 0x1_0000_0000_0000, AXIS_LIMIT as int);
            lemma_mul_bound(ey as int, ay as int, 0x1_0000_0000_0000, AXIS_LIMIT as int);
            lemma_mul_bound(ex as int, ay as int, 0x1_0000_0000_0000, AXIS_LIMIT as int);
            lemma_mul_bound(ey as int, ax as int, 0x1_0000_0000_0000, AXIS_LIMIT as int);
            lemma_mul_bound(ey as int, -ay, 0x1_0000_0000_0000, AXIS_LIMIT as int);
        }
        let nay = -ay;
        let dx = -(ex * ax + ey * nay);
        let dy = -(ex * ay + ey * ax);
        assert(-0x2000_0000_0000_0000 <= dx <= 0x2000_0000_0000_0000);
        assert(-0x2000_0000_0000_0000 <= dy <= 0x2000_0000_0000_0000);
        proof {
            lemma_mul_bound(dx as int, dx as int, 0x2000_0000_0000_0000, 0x2000_0000_0000_0000);
            lemma_mul_bound(dy as int, dy as int, 0x2000_0000_0000_0000, 0x2000_0000_0000_0000);
            assert(dx * dx >= 0 && dy * dy >= 0) by (nonlinear_arith);
        }
        let n = dx * dx + dy * dy;
        let dist = isqrt_wide(n as u128);
        let len = t.axis_len as i128;
        proof {
            lemma_mul_bound(len as int, len as int, AXIS_LIMIT as int, AXIS_LIMIT as int);
            assert(len * len >= 1) by (nonlinear_arith)
                requires
                    len >= 1,
            ;
            lemma_ball_tilted_pen(*self, *t, ex as int, ey as int, dx as int, dy as int, dist as int);
        }
        let pen = self.radius as i128 - dist as i128 / (len * len);
        Some(Contact { direction: Vec2 { x: dx as i64, y: dy as i64 }, distance: dist as i64, penetration: pen as i64 })
    }
}

/// Where the ball's centre, outside the box, is `(ex, ey)` away in the box's
/// frame, the push toward the closest point is positive.
proof fn lemma_ball_tilted_pen(b: Ball, t: TiltedBox, ex: int, ey: int, dx: int, dy: int, dist: int)
    requires
        b.wf(),
        t.wf(),
        ex == excess_x(t, b),
        ey == excess_y(t, b),
        ball_tilted_overlap(b, t),
        dx == -(ex * t.axis.x + ey * (-t.axis.y)),
        dy == -(ex * t.axis.y + ey * t.axis.x),
        0 <= dist,
        dist * dist <= dx * dx + dy * dy,
    ensures
        dist / (t.axis_len * t.axis_len) < b.radius,
{
    let ax = t.axis.x as int;
    let ay = t.axis.y as int;
    let l2 = t.axis_len * t.axis_len;
    let (p, q, r, w) = (ex * ax, ey * ay, ex * ay, ey * ax);
    assert(ey * (-ay) == -q) by (nonlinear_arith)
        requires
            q == ey * ay,
    ;
    assert(dx == -(p - q));
    assert(dy == -(r + w));
    assert(dx * dx == (p - q) * (p - q)) by (nonlinear_arith)
        requires
            dx == -(p - q),
    ;
    assert(dy * dy == (r + w) * (r + w)) by (nonlinear_arith)
        requires
            dy == -(r + w),
    ;
    assert((p - q) * (p - q) == p * p - 2 * (p * q) + q * q) by (nonlinear_arith);
    assert((r + w) * (r + w) == r * r + 2 * (r * w) + w * w) by (nonlinear_arith);
    assert(p * q == r * w) by (nonlinear_arith)
        requires
            p == ex * ax,
            q == ey * ay,
            r == ex * ay,
            w == ey * ax,
    ;
    assert(p * p == (ex * ex) * (ax * ax)) by (nonlinear_arith)
        requires
            p == ex * ax,
    ;
    assert(q * q == (ey * ey) * (ay * ay)) by (nonlinear_arith)
        requires
            q == ey * ay,
    ;
    assert(r * r == (ex * ex) * (ay * ay)) by (nonlinear_arith)
        requires
            r == ex * ay,
    ;
    assert(w * w == (ey * ey) * (ax * ax)) by (nonlinear_arith)
        requires
            w == ey * ax,
    ;
    let (e1, e2, a1, a2) = (ex * ex, ey * ey, ax * ax, ay * ay);
    assert((e1 + e2) * (a1 + a2) == e1 * a1 + e2 * a2 + e1 * a2 + e2 * a1) by (nonlinear_arith);
    assert(dx * dx + dy * dy == (ex * ex + ey * ey) * l2);
    let rr = b.radius * b.radius;
    assert(ex * ex + ey * ey < rr * l2);
    assert(l2 >= 1) by (nonlinear_arith)
        requires
            l2 == t.axis_len * t.axis_len,
            t.axis_len >= 1,
    ;
    assert(dx * dx + dy * dy < (rr * l2) * l2) by (nonlinear_arith)
        requires
            dx * dx + dy * dy == (ex * ex + ey * ey) * l2,
            ex * ex + ey * ey < rr * l2,
            l2 >= 1,
    ;
    let m = b.radius * l2;
    assert((rr * l2) * l2 == m * m) by (nonlinear_arith)
        requires
            rr == b.radius * b.radius,
            m == b.radius * l2,
    ;
    assert(dist < m) by (nonlinear_arith)
        requires
            dist * dist < m * m,
            dist >= 0,
            m >= 0,
    ;
    assert(dist / l2 < b.radius) by (nonlinear_arith)
        requires
            0 <= dist < b.radius * l2,
            l2 >= 1,
    ;
}

/// The ball's centre along the box's `axis`, in the box's frame.
fn b_center_offset(t: &TiltedBox, b: &Ball) -> (r: i128)
    requires
        t.wf(),
        b.wf(),
    ensures
        r == local_x(*t, *b),
{
    let dx = b.center.x as i128 - t.center.x as i128;
    let dy = b.center.y as i128 - t.center.y as i128;
    proof {
        lemma_mul_bound(dx as int, t.axis.x as int, 2 * LIMIT, AXIS_LIMIT as int);
        lemma_mul_bound(dy as int, t.axis.y as int, 2 * LIMIT, AXIS_LIMIT as int);
    }
    dx * (t.axis.x as i128) + dy * (t.axis.y as i128)
}

} // verus!

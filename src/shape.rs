//! The closed set of collider shapes, with one overlap test and one collision
//! for every pair of them.
use vstd::prelude::*;

use crate::collider::{is_ball_contact, is_ball_rect_contact, Ball, Collider, Contact, Vec2};
use crate::tilted::{
    ball_tilted_overlap, is_ball_tilted_contact, tilted_contact, tilted_overlap, TiltedBox,
};

verus! {

/// A collider of any shape.
#[derive(Debug, Clone, Copy, PartialEq, Eq, Structural)]
pub enum Shape {
    /// An axis-aligned rectangle.
    Rect(Collider),
    /// A rectangle turned by an angle.
    Tilted(TiltedBox),
    /// A disc.
    Round(Ball),
}

/// The contact seen from the other shape: the same push, the other way.
pub open spec fn reversed(c: Contact) -> Contact {
    Contact { direction: Vec2 { x: (-c.direction.x) as i64, y: (-c.direction.y) as i64 }, ..c }
}

/// The rectangle-against-rectangle contact as a general contact.
pub open spec fn rect_contact(a: Collider, b: Collider) -> Contact {
    Contact {
        direction: Vec2 { x: a.normal_x(&b) as i64, y: a.normal_y(&b) as i64 },
        distance: 1,
        penetration: a.penetration(&b) as i64,
    }
}

impl Shape {
    pub open spec fn wf(&self) -> bool {
        match *self {
            Shape::Rect(r) => r.wf(),
            Shape::Tilted(t) => t.wf(),
            Shape::Round(b) => b.wf(),
        }
    }

    /// Whether the two shapes overlap with a positive area.
    pub open spec fn overlaps(&self, other: &Shape) -> bool {
        match (*self, *other) {
            (Shape::Rect(a), Shape::Rect(b)) => a.overlaps(&b),
            (Shape::Rect(a), Shape::Tilted(b)) => tilted_overlap(TiltedBox::of_rect(a), b),
            (Shape::Tilted(a), Shape::Rect(b)) => tilted_overlap(a, TiltedBox::of_rect(b)),
            (Shape::Tilted(a), Shape::Tilted(b)) => tilted_overlap(a, b),
            (Shape::Round(a), Shape::Round(b)) => a.overlaps_ball(&b),
            (Shape::Round(a), Shape::Rect(b)) => a.overlaps_rect(&b),
            (Shape::Rect(a), Shape::Round(b)) => b.overlaps_rect(&a),
            (Shape::Round(a), Shape::Tilted(b)) => ball_tilted_overlap(a, b),
            (Shape::Tilted(a), Shape::Round(b)) => ball_tilted_overlap(b, a),
        }
    }

    /// Whether `c` is the contact of `self` against `other`, that is the push
    /// `-c.direction * c.penetration / c.distance` of `self`.
    pub open spec fn is_contact(&self, other: &Shape, c: Contact) -> bool {
        match (*self, *other) {
            (Shape::Rect(a), Shape::Rect(b)) => c == rect_contact(a, b),
            (Shape::Rect(a), Shape::Tilted(b)) => c == tilted_contact(TiltedBox::of_rect(a), b),
            (Shape::Tilted(a), Shape::Rect(b)) => c == tilted_contact(a, TiltedBox::of_rect(b)),
            (Shape::Tilted(a), Shape::Tilted(b)) => c == tilted_contact(a, b),
            (Shape::Round(a), Shape::Round(b)) => is_ball_contact(a, b, c),
            (Shape::Round(a), Shape::Rect(b)) => is_ball_rect_contact(a, b, c),
            (Shape::Rect(a), Shape::Round(b)) => is_ball_rect_contact(b, a, reversed(c)),
            (Shape::Round(a), Shape::Tilted(b)) => is_ball_tilted_contact(a, b, c),
            (Shape::Tilted(a), Shape::Round(b)) => is_ball_tilted_contact(b, a, reversed(c)),
        }
    }

    pub fn check(&self, other: &Shape) -> (r: bool)
        requires
            self.wf(),
            other.wf(),
        ensures
            r == self.overlaps(other),
    {
        match (self, other) {
            (Shape::Rect(a), Shape::Rect(b)) => a.check(b),
            (Shape::Rect(a), Shape::Tilted(b)) => TiltedBox::from_rect(a).check(b),
            (Shape::Tilted(a), Shape::Rect(b)) => a.check(&TiltedBox::from_rect(b)),
            (Shape::Tilted(a), Shape::Tilted(b)) => a.check(b),
            (Shape::Round(a), Shape::Round(b)) => a.check_ball(b),
            (Shape::Round(a), Shape::Rect(b)) => a.check_rect(b),
            (Shape::Rect(a), Shape::Round(b)) => b.check_rect(a),
            (Shape::Round(a), Shape::Tilted(b)) => a.check_tilted(b),
            (Shape::Tilted(a), Shape::Round(b)) => b.check_tilted(a),
        }
    }

    /// The push that separates `self` from `other`, or `None` when they do not
    /// overlap.
    pub fn collide(&self, other: &Shape) -> (r: Option<Contact>)
        requires
            self.wf(),
            other.wf(),
        ensures
            r is Some <==> self.overlaps(other),
            !self.overlaps(other) ==> r is None,
            r matches Some(c) ==> self.is_contact(other, c),
    {
        match (self, other) {
            (Shape::Rect(a), Shape::Rect(b)) => match a.collide(b) {
                Some(c) => Some(Contact { direction: c.normal, distance: 1, penetration: c.penetration }),
                None => None,
            },
            (Shape::Rect(a), Shape::Tilted(b)) => TiltedBox::from_rect(a).collide(b),
            (Shape::Tilted(a), Shape::Rect(b)) => a.collide(&TiltedBox::from_rect(b)),
            (Shape::Tilted(a), Shape::Tilted(b)) => a.collide(b),
            (Shape::Round(a), Shape::Round(b)) => a.collide_ball(b),
            (Shape::Round(a), Shape::Rect(b)) => a.collide_rect(b),
            (Shape::Rect(a), Shape::Round(b)) => match b.collide_rect(a) {
                Some(c) => Some(reverse(c)),
                None => None,
            },
            (Shape::Round(a), Shape::Tilted(b)) => a.collide_tilted(b),
            (Shape::Tilted(a), Shape::Round(b)) => match b.collide_tilted(a) {
                Some(c) => Some(reverse(c)),
                None => None,
            },
        }
    }
}

fn reverse(c: Contact) -> (r: Contact)
    requires
        c.direction.x > i64::MIN,
        c.direction.y > i64::MIN,
    ensures
        c == reversed(r),
{
    Contact { direction: Vec2 { x: -c.direction.x, y: -c.direction.y }, ..c }
}

} // verus!

use friendly_jam::collider::{deepest_collision, isqrt, isqrt_wide, Ball, Collider, Vec2};
use friendly_jam::shape::Shape;
use friendly_jam::tilted::TiltedBox;

fn rect(x: i64, y: i64, hw: i64, hh: i64) -> Collider {
    Collider::rect(Vec2::new(x, y), hw, hh)
}

#[test]
fn separated_rectangles_do_not_collide() {
    let a = rect(0, 0, 500, 500);
    let b = rect(2000, 0, 500, 500);
    assert!(a.collide(&b).is_none());
    assert!(!a.check(&b));
    let c = rect(0, 3000, 500, 500);
    assert!(a.collide(&c).is_none());
}

#[test]
fn touching_edges_do_not_collide() {
    let a = rect(0, 0, 500, 500);
    let b = rect(1000, 0, 500, 500);
    assert!(a.collide(&b).is_none());
    assert!(!a.check(&b));
    let c = rect(0, 1000, 500, 500);
    assert!(a.collide(&c).is_none());
}

#[test]
fn overlap_resolves_along_least_penetration() {
    let a = rect(0, 0, 500, 500);
    let b = rect(800, 100, 500, 500);
    assert!(a.check(&b));
    let c = a.collide(&b).unwrap();
    assert_eq!(c.normal, Vec2::new(1, 0));
    assert_eq!(c.penetration, 200);
    let mut moved = a;
    moved.position = Vec2::new(
        a.position.x - c.normal.x * c.penetration,
        a.position.y - c.normal.y * c.penetration,
    );
    assert!(moved.collide(&b).is_none());
    assert!(!moved.check(&b));
}

#[test]
fn overlap_from_above_pushes_up() {
    let floor = rect(8000, 500, 8000, 500);
    let player = rect(3000, 1700, 500, 750);
    let c = player.collide(&floor).unwrap();
    assert_eq!(c.normal, Vec2::new(0, -1));
    assert_eq!(c.penetration, 50);
    let mut moved = player;
    moved.position.y -= c.normal.y * c.penetration;
    assert_eq!(moved.position.y, 1750);
    assert!(moved.collide(&floor).is_none());
}

#[test]
fn contained_rectangle_is_pushed_out_the_short_way() {
    let big = rect(0, 0, 5000, 5000);
    let small = rect(4000, 0, 500, 500);
    let c = small.collide(&big).unwrap();
    assert_eq!(c.normal, Vec2::new(-1, 0));
    assert_eq!(c.penetration, 1500);
    let mut moved = small;
    moved.position.x -= c.normal.x * c.penetration;
    assert!(moved.collide(&big).is_none());
}

#[test]
fn deepest_collision_picks_largest_penetration() {
    let probe = rect(0, 0, 500, 500);
    let others = vec![rect(900, 0, 500, 500), rect(0, 700, 500, 500), rect(5000, 0, 10, 10)];
    let c = deepest_collision(&probe, &others).unwrap();
    assert_eq!(c.penetration, 300);
    assert_eq!(c.normal, Vec2::new(0, 1));
    assert!(deepest_collision(&probe, &vec![rect(5000, 0, 10, 10)]).is_none());
    assert!(deepest_collision(&probe, &vec![]).is_none());
}

#[test]
fn aabb_of_collider() {
    let a = rect(100, -200, 30, 40).compute_aabb();
    assert_eq!(a.min, Vec2::new(70, -240));
    assert_eq!(a.max, Vec2::new(130, -160));
}

fn ball(x: i64, y: i64, r: i64) -> Ball {
    Ball { center: Vec2::new(x, y), radius: r }
}

#[test]
fn integer_square_root() {
    assert_eq!(isqrt(0), 0);
    assert_eq!(isqrt(1), 1);
    assert_eq!(isqrt(24), 4);
    assert_eq!(isqrt(25), 5);
    assert_eq!(isqrt(u64::MAX), 4294967295);
}

#[test]
fn separated_balls_do_not_collide() {
    let a = ball(0, 0, 500);
    assert!(a.collide_ball(&ball(1000, 0, 500)).is_none());
    assert!(!a.check_ball(&ball(800, 800, 500)));
    assert!(a.collide_ball(&ball(800, 800, 500)).is_none());
}

#[test]
fn overlapping_balls_collide() {
    let a = ball(0, 0, 500);
    let b = ball(600, 700, 500);
    assert!(a.check_ball(&b));
    let c = a.collide_ball(&b).unwrap();
    assert_eq!(c.direction, Vec2::new(600, 700));
    assert_eq!(c.distance, 921);
    assert_eq!(c.penetration, 79);
}

#[test]
fn ball_against_rectangle() {
    let floor = Collider::rect(Vec2::new(8000, 500), 8000, 500);
    let above = ball(3000, 1500, 500);
    assert!(!above.check_rect(&floor));
    assert!(above.collide_rect(&floor).is_none());
    let sunk = ball(3000, 1300, 500);
    let c = sunk.collide_rect(&floor).unwrap();
    assert_eq!(c.direction, Vec2::new(0, -300));
    assert_eq!(c.distance, 300);
    assert_eq!(c.penetration, 200);
    let corner = ball(16300, 1400, 500);
    assert!(!corner.check_rect(&floor));
    let inside = ball(3000, 600, 100);
    let c = inside.collide_rect(&floor).unwrap();
    assert_eq!(c.distance, 1);
    assert_eq!(c.direction, Vec2::new(0, -1));
    assert_eq!(c.penetration, 500);
}

fn tilted(x: i64, y: i64, hw: i64, hh: i64) -> TiltedBox {
    TiltedBox { center: Vec2::new(x, y), half_width: hw, half_height: hh, axis: Vec2::new(3, 4), axis_len: 5 }
}

#[test]
fn wide_square_root() {
    assert_eq!(isqrt_wide(10u128.pow(30)), 10u128.pow(15));
    assert_eq!(isqrt_wide(99), 9);
}

#[test]
fn tilted_boxes_separate_on_an_edge_direction() {
    let a = tilted(0, 0, 100, 100);
    // Along the axis (3, 4) the centre lies 250 away, beyond both reaches.
    let far = tilted(150, 200, 100, 100);
    assert!(!a.check(&far));
    assert!(a.collide(&far).is_none());
    let near = tilted(60, 80, 100, 100);
    assert!(a.check(&near));
    let c = a.collide(&near).unwrap();
    assert_eq!(c.direction, Vec2::new(3, 4));
    assert_eq!(c.distance, 5);
    assert_eq!(c.penetration, 100);
}

#[test]
fn every_pair_of_shapes() {
    let rect = Shape::Rect(Collider::rect(Vec2::new(0, 0), 100, 100));
    let tilt = Shape::Tilted(tilted(150, 0, 100, 100));
    let round = Shape::Round(ball(0, 150, 60));
    let far = Shape::Round(ball(5000, 5000, 10));
    let shapes = [rect, tilt, round];
    for a in &shapes {
        assert!(!a.check(&far));
        assert!(a.collide(&far).is_none());
        assert!(!far.check(a));
    }
    assert!(rect.check(&tilt) && tilt.check(&rect));
    assert!(rect.check(&round) && round.check(&rect));
    let c = rect.collide(&round).unwrap();
    assert_eq!(c.direction, Vec2::new(0, 50));
    assert_eq!(c.penetration, 10);
    let c = round.collide(&rect).unwrap();
    assert_eq!(c.direction, Vec2::new(0, -50));
    assert!(rect.collide(&rect).is_some());
    assert!(round.collide(&round).is_some());
    assert!(tilt.collide(&tilt).is_some());
    let inside = Shape::Round(ball(150, 0, 10));
    assert!(tilt.check(&inside) && inside.check(&tilt));
    let c = inside.collide(&tilt).unwrap();
    assert_eq!(c.distance, 5);
    assert_eq!(c.penetration, 100 + 10);
}

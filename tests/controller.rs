use friendly_jam::collider::{Collider, Vec2};
use friendly_jam::level::{LevelGeometry, Platform, SolverItem, SolverItemKind, SolverLevel};
use friendly_jam::tilted::TiltedBox;
use friendly_jam::model::{Player, PlayerAnimationState, PlayerState};
use friendly_jam::player::{PlayerControl, SolverRules};
use friendly_jam::solver::GameSolver;

fn rules() -> SolverRules {
    SolverRules {
        buffer_time: 100,
        coyote_time: 100,
        gravity: Vec2::new(0, -30000),
        fall_multiplier: 1500,
        free_fall_speed: 20000,
        low_multiplier: 2000,
        move_speed: 5000,
        acceleration_ground: 50000,
        acceleration_air: 20000,
        deceleration_ground: 60000,
        deceleration_air: 10000,
        jump_push: 1000,
        jump_strength: 12000,
    }
}

fn player_at(x: i64, y: i64) -> Player {
    Player {
        collider: Collider::rect(Vec2::new(x, y), 500, 750),
        velocity: Vec2::new(0, 0),
        state: PlayerState::Airborn,
        control_timeout: None,
        facing_left: false,
        can_hold_jump: false,
        coyote_time: None,
        jump_buffer: None,
        animation_time: 0,
    }
}

fn empty_geometry() -> LevelGeometry {
    let far = Collider::rect(Vec2::new(-90_000_000, -90_000_000), 10, 10);
    LevelGeometry { statics: vec![], tilted: vec![], door_entrance: far, door_exit: far, platforms: vec![] }
}

fn control(jump: bool, dir: i64) -> PlayerControl {
    PlayerControl { jump, hold_jump: jump, move_dir: dir, pickup: false }
}

/// A player that left the ground at time zero, then runs `ticks` frames of
/// `dt` milliseconds and presses jump on the last one.
fn jump_after_leaving_ground(ticks: usize, dt: i64) -> (Player, Player) {
    let r = rules();
    let geometry = empty_geometry();
    let mut items: Vec<SolverItem> = vec![];
    let mut p = player_at(5000, 5000);
    p.coyote_time = Some(r.coyote_time);
    for _ in 0..ticks - 1 {
        p.update(&r, &control(false, 0), &geometry, false, &mut items, &mut None, dt);
    }
    let mut without = p;
    without.update(&r, &control(false, 0), &geometry, false, &mut items, &mut None, dt);
    p.update(&r, &control(true, 0), &geometry, false, &mut items, &mut None, dt);
    (p, without)
}

#[test]
fn jump_within_coyote_time_succeeds() {
    // Pressed 96 ms after leaving the ground.
    let (p, _) = jump_after_leaving_ground(6, 16);
    assert_eq!(p.velocity.y, 12000);
    assert_eq!(p.state, PlayerState::Airborn);
    assert!(p.can_hold_jump);
    assert_eq!(p.jump_buffer, None);
    assert_eq!(p.coyote_time, None);
}

#[test]
fn jump_after_coyote_time_fails() {
    // Pressed 120 ms after leaving the ground.
    let (p, without) = jump_after_leaving_ground(6, 20);
    assert_ne!(p.velocity.y, 12000);
    assert_eq!(p.velocity, without.velocity);
    assert_eq!(p.jump_buffer, Some(100));
}

#[test]
fn timers_count_down_and_clear() {
    let mut p = player_at(0, 0);
    p.coyote_time = Some(30);
    p.jump_buffer = Some(100);
    p.control_timeout = Some(16);
    p.update_timers(16);
    assert_eq!(p.coyote_time, Some(14));
    assert_eq!(p.jump_buffer, Some(84));
    assert_eq!(p.control_timeout, None);
    assert_eq!(p.animation_time, 16);
    p.update_timers(14);
    assert_eq!(p.coyote_time, None);
}

#[test]
fn input_fills_buffer_and_turns_player() {
    let r = rules();
    let mut p = player_at(0, 0);
    p.can_hold_jump = true;
    p.velocity = Vec2::new(-10, 0);
    p.register_input(&r, &PlayerControl { jump: true, hold_jump: false, move_dir: 0, pickup: false });
    assert_eq!(p.jump_buffer, Some(100));
    assert!(!p.can_hold_jump);
    assert!(p.facing_left);
}

#[test]
fn gravity_and_fast_fall() {
    let r = rules();
    let mut p = player_at(0, 0);
    p.apply_gravity(&r, 16);
    assert_eq!(p.velocity.y, -480);
    p.variable_jump(&r, &control(false, 0), 16);
    assert_eq!(p.velocity.y, -720);
    p.velocity.y = -19900;
    p.variable_jump(&r, &control(false, 0), 16);
    assert_eq!(p.velocity.y, -20000);
}

#[test]
fn low_jump_when_released() {
    let r = rules();
    let mut p = player_at(0, 0);
    p.velocity.y = 5000;
    p.can_hold_jump = true;
    p.variable_jump(&r, &control(true, 0), 16);
    assert_eq!(p.velocity.y, 5000);
    p.variable_jump(&r, &control(false, 0), 16);
    assert_eq!(p.velocity.y, 4520);
}

#[test]
fn horizontal_acceleration_is_capped() {
    let r = rules();
    let mut p = player_at(0, 0);
    p.state = PlayerState::Grounded;
    p.horizontal_control(&r, &control(false, 1), 16);
    assert_eq!(p.velocity.x, 800);
    p.state = PlayerState::Airborn;
    p.horizontal_control(&r, &control(false, 1), 16);
    assert_eq!(p.velocity.x, 1120);
    p.velocity.x = 4900;
    p.horizontal_control(&r, &control(false, 1), 16);
    assert_eq!(p.velocity.x, 5000);
    p.velocity.x = 6000;
    p.horizontal_control(&r, &control(false, 1), 16);
    assert_eq!(p.velocity.x, 5840);
    p.control_timeout = Some(50);
    p.horizontal_control(&r, &control(false, -1), 16);
    assert_eq!(p.velocity.x, 5840);
}

#[test]
fn grounded_jump_pushes_sideways() {
    let r = rules();
    let mut p = player_at(0, 0);
    p.state = PlayerState::Grounded;
    p.jump_buffer = Some(50);
    p.velocity.x = 300;
    p.jump(&r, &control(true, -1));
    assert_eq!(p.velocity, Vec2::new(-700, 12000));
    assert_eq!(p.state, PlayerState::Airborn);
}

#[test]
fn integrate_moves_by_velocity() {
    let mut p = player_at(1000, 2000);
    p.velocity = Vec2::new(5000, -1000);
    p.integrate(16);
    assert_eq!(p.collider.position, Vec2::new(1080, 1984));
}

#[test]
fn feet_and_animation() {
    let mut p = player_at(1000, 2000);
    let feet = p.feet_collider();
    assert_eq!(feet.half_width, 450);
    assert_eq!(feet.half_height, 150);
    assert_eq!(feet.position, Vec2::new(1000, 1400));
    assert_eq!(p.animation_state(), PlayerAnimationState::Jumping);
    p.state = PlayerState::Grounded;
    assert_eq!(p.animation_state(), PlayerAnimationState::Idle);
    p.velocity.x = -11;
    assert_eq!(p.animation_state(), PlayerAnimationState::Running);
}

fn level(platforms: Vec<Platform>, items: Vec<SolverItem>) -> SolverLevel {
    SolverLevel {
        door_entrance: true,
        door_exit: true,
        spawnpoint: Vec2::new(2000, 1000),
        transition: Collider::rect(Vec2::new(15500, 2000), 500, 1000),
        platforms,
        items,
    }
}

#[test]
fn level_geometry_is_built() {
    let lvl = level(vec![Platform { pos: Vec2::new(5000, 4000), width: 1000, height: 200 }], vec![]);
    let g = LevelGeometry::build(&lvl, 0);
    assert_eq!(g.statics.len(), 4);
    assert_eq!(g.statics[0], Collider::rect(Vec2::new(8000, 500), 8000, 500));
    assert_eq!(g.statics[1], Collider::rect(Vec2::new(500, 7500), 500, 4500));
    assert_eq!(g.statics[2], Collider::rect(Vec2::new(15500, 7500), 500, 4500));
    assert_eq!(g.statics[3], Collider::rect(Vec2::new(8000, 8500), 8000, 500));
    assert_eq!(g.door_entrance, Collider::rect(Vec2::new(150, 2000), 150, 1000));
    assert_eq!(g.door_exit, Collider::rect(Vec2::new(15850, 2000), 150, 1000));
    assert_eq!(g.platforms, vec![Collider::rect(Vec2::new(5000, 3900), 1000, 100)]);
}

#[test]
fn player_lands_on_floor() {
    let r = rules();
    let lvl = level(vec![], vec![]);
    let g = LevelGeometry::build(&lvl, 0);
    let mut items = vec![];
    let mut p = player_at(3000, 1760);
    p.velocity.y = -1000;
    p.update(&r, &control(false, 0), &g, false, &mut items, &mut None, 16);
    assert_eq!(p.state, PlayerState::Grounded);
    assert_eq!(p.coyote_time, Some(100));
    assert_eq!(p.collider.position.y, 1750);
    assert_eq!(p.velocity.y, 0);
}

#[test]
fn closed_exit_door_blocks() {
    let lvl = level(vec![], vec![]);
    let g = LevelGeometry::build(&lvl, 0);
    let mut items = vec![];
    let mut p = player_at(15300, 2000);
    p.move_and_collide(&g, false, &mut items);
    assert_eq!(p.collider.position.x, 15200);
    let mut q = player_at(15300, 2000);
    q.move_and_collide(&g, true, &mut items);
    assert_eq!(q.collider.position.x, 15300);
}

#[test]
fn platforms_hold_only_from_above() {
    let lvl = level(vec![Platform { pos: Vec2::new(5000, 4000), width: 1000, height: 200 }], vec![]);
    let g = LevelGeometry::build(&lvl, 0);
    let mut items = vec![];
    let mut p = player_at(5000, 4700);
    p.velocity.y = -100;
    p.move_and_collide(&g, true, &mut items);
    assert_eq!(p.collider.position.y, 4750);
    let mut q = player_at(5000, 4700);
    q.velocity.y = 100;
    q.move_and_collide(&g, true, &mut items);
    assert_eq!(q.collider.position.y, 4700);
}

#[test]
fn pushable_item_shares_the_correction() {
    let lvl = level(vec![], vec![]);
    let g = LevelGeometry::build(&lvl, 0);
    let block = SolverItem {
        kind: SolverItemKind::CinderBlock,
        pushable: true,
        can_pickup: false,
        has_gravity: false,
        collider: Collider::rect(Vec2::new(6000, 3000), 500, 500),
    };
    let mut items = vec![block];
    let mut p = player_at(5100, 3000);
    p.move_and_collide(&g, true, &mut items);
    assert_eq!(p.collider.position.x, 5050);
    assert_eq!(items[0].collider.position.x, 6050);
}

#[test]
fn reaching_open_exit_advances_level() {
    let r = rules();
    let levels = vec![level(vec![], vec![]), level(vec![], vec![])];
    let mut sim = GameSolver::new(&levels, 0);
    assert_eq!(sim.player.collider.position, Vec2::new(2000, 1750));
    assert!(!sim.update(&levels, &r, &control(false, 0), 16));
    sim.state.levels_completed = 1;
    sim.player.collider.position = Vec2::new(15500, 1750);
    assert!(sim.update(&levels, &r, &control(false, 0), 16));
    assert_eq!(sim.state.current_level, 1);
    assert_eq!(sim.player.collider.position, Vec2::new(2000, 1750));
    assert_eq!(sim.player.velocity, Vec2::new(0, 0));
}

#[test]
fn falling_out_of_the_level_respawns() {
    let r = rules();
    let levels = vec![level(vec![], vec![])];
    let mut sim = GameSolver::new(&levels, 0);
    sim.player.collider.position = Vec2::new(3000, -60000);
    assert!(!sim.update(&levels, &r, &control(false, 0), 16));
    assert_eq!(sim.player.collider.position, Vec2::new(2000, 1750));
}

fn item(kind: SolverItemKind, x: i64, y: i64) -> SolverItem {
    SolverItem {
        kind,
        pushable: false,
        can_pickup: true,
        has_gravity: true,
        collider: Collider::rect(Vec2::new(x, y), 250, 250),
    }
}

#[test]
fn pickup_and_drop_in_front() {
    let p = player_at(3000, 1750);
    let mut items = vec![item(SolverItemKind::CinderBlock, 9000, 1250), item(SolverItemKind::Fish, 3200, 1250)];
    let mut held = None;
    let press = PlayerControl { jump: false, hold_jump: false, move_dir: 0, pickup: true };
    p.pickup(&control(false, 0), &mut items, &mut held);
    assert!(held.is_none());
    p.pickup(&press, &mut items, &mut held);
    assert_eq!(held.map(|i| i.kind), Some(SolverItemKind::Fish));
    assert_eq!(items.len(), 1);
    let mut q = p;
    q.facing_left = true;
    q.pickup(&press, &mut items, &mut held);
    assert!(held.is_none());
    assert_eq!(items.len(), 2);
    assert_eq!(items[1].collider.position, Vec2::new(2500, 1750));
}

#[test]
fn items_fall_until_supported() {
    let levels = vec![level(vec![], vec![item(SolverItemKind::Fish, 4000, 1300), item(SolverItemKind::Fish, 6000, 1200)])];
    let mut sim = GameSolver::new(&levels, 0);
    sim.update_items(16);
    assert_eq!(sim.items[0].collider.position, Vec2::new(4000, 1220));
    assert_eq!(sim.items[1].collider.position, Vec2::new(6000, 1250));
}

#[test]
fn fish_meets_cinder_block() {
    let levels = vec![level(vec![], vec![
        item(SolverItemKind::Fish, 4000, 1250),
        item(SolverItemKind::Fish, 9000, 1250),
        item(SolverItemKind::CinderBlock, 4300, 1250),
    ])];
    let mut sim = GameSolver::new(&levels, 1);
    assert!(!sim.detect_explosion());
    let mut sim = GameSolver::new(&levels, 0);
    sim.state.current_level = 1;
    sim.state.levels_completed = 2;
    let levels1 = vec![level(vec![], vec![]), level(vec![], levels[0].items.clone())];
    sim.reload_level(&levels1);
    assert!(sim.detect_explosion());
    assert_eq!(sim.items.len(), 1);
    assert_eq!(sim.items[0].collider.position, Vec2::new(9000, 1250));
    assert_eq!(sim.explosion, Some((Vec2::new(4000, 1250), 0)));
    // The level's exit is open already: the blast changes nothing.
    let out = sim.update_explosion(1001);
    assert!(!out.sync_solver);
    assert!(sim.explosion.is_none());
}

#[test]
fn explosion_solves_second_level_or_catches_player() {
    let levels = vec![level(vec![], vec![]), level(vec![], vec![])];
    let mut sim = GameSolver::new(&levels, 1);
    sim.state.levels_completed = 1;
    sim.explosion = Some((Vec2::new(9000, 1250), 0));
    let out = sim.update_explosion(1000);
    assert!(!out.sync_solver && !out.caught);
    let out = sim.update_explosion(16);
    assert!(out.sync_solver);
    assert!(!out.caught);
    assert_eq!(sim.state.levels_completed, 2);
    sim.explosion = Some((Vec2::new(2500, 1750), 990));
    let out = sim.update_explosion(16);
    assert!(out.caught);
}

#[test]
fn bubble_level_has_tilted_walls() {
    let lvl = level(vec![], vec![]);
    let g = LevelGeometry::build(&lvl, 3);
    assert_eq!(g.statics.len(), 4);
    assert_eq!(g.tilted.len(), 3);
    assert_eq!(g.tilted[0].center, Vec2::new(5000, 4500));
    assert_eq!(g.tilted[0].axis, Vec2::new(1419, 380));
    assert_eq!(g.tilted[0].half_height, 4500);
    assert_eq!(g.tilted[1].center, Vec2::new(11000, 5700));
    assert_eq!(g.tilted[1].axis, Vec2::new(1419, -380));
    assert_eq!(g.tilted[2].center, Vec2::new(10150, 1950));
    assert_eq!(g.tilted[2].half_height, 1200);
    assert!(LevelGeometry::build(&lvl, 2).tilted.is_empty());
    let levels = vec![level(vec![], vec![]), level(vec![], vec![]), level(vec![], vec![]), level(vec![], vec![])];
    let sim = GameSolver::new(&levels, 3);
    assert_eq!(sim.geometry.tilted.len(), 3);
}

#[test]
fn tilted_wall_pushes_player_back() {
    let lvl = level(vec![], vec![]);
    let g = LevelGeometry::build(&lvl, 3);
    let wall: TiltedBox = g.tilted[0];
    let body = TiltedBox::from_rect(&Collider::rect(Vec2::new(4800, 4500), 500, 750));
    let c = body.collide(&wall).unwrap();
    assert_eq!(c.direction, Vec2::new(1419, 380));
    assert_eq!(c.distance, 1469);
    assert!(515 <= c.penetration && c.penetration <= 525);
    let mut items = vec![];
    let mut p = player_at(4800, 4500);
    p.velocity = Vec2::new(3000, 0);
    p.move_and_collide(&g, true, &mut items);
    assert!(p.collider.position.x < 4400);
    assert!(p.collider.position.y < 4500);
    assert!(p.velocity.x < 3000);
}

#[test]
fn frame_runs_clock_player_and_items() {
    let r = rules();
    let levels = vec![
        level(vec![], vec![]),
        level(vec![], vec![item(SolverItemKind::Fish, 4000, 1250), item(SolverItemKind::CinderBlock, 4300, 1250)]),
    ];
    let mut sim = GameSolver::new(&levels, 1);
    sim.state.levels_completed = 1;
    let out = sim.frame(&levels, &r, &control(false, 0), 16);
    assert!(!out.sync_solver && !out.caught);
    assert!(sim.items.is_empty());
    // Both items fell freely first: they only touched the floor.
    assert_eq!(sim.explosion, Some((Vec2::new(4000, 1170), 0)));
    let out = sim.frame(&levels, &r, &control(false, 0), 1000);
    assert!(!out.sync_solver);
    let out = sim.frame(&levels, &r, &control(false, 0), 16);
    assert!(out.sync_solver);
    assert!(!out.caught);
    assert_eq!(sim.state.levels_completed, 2);
}

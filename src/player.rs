//! The per-tick controller of the solver's actor.
use vstd::prelude::*;

use crate::collider::{Collider, Collision, Contact, Vec2};
use crate::fixed::{
    abs_spec, add_spec, div_trunc, div_trunc_wide, fx_half, half_spec, saturate, clamp_abs_spec, fx_abs, fx_add, fx_clamp_abs, fx_mul, fx_signum, fx_sub, in_range,
    mul_spec, signum_spec, sub_spec, LIMIT, SCALE,
};
use crate::level::{LevelGeometry, SolverItem};
use crate::tilted::{tilted_contact, tilted_overlap, TiltedBox, AXIS_LIMIT};
use crate::model::{Player, PlayerAnimationState, PlayerState, timer_wf};

verus! {

/// Tuning of the controller. Times are in milliseconds, speeds in coordinate
/// steps per second, accelerations in steps per second squared and multipliers
/// in thousandths.
#[derive(Debug, Clone, Copy)]
pub struct SolverRules {
    pub buffer_time: i64,
    pub coyote_time: i64,
    pub gravity: Vec2,
    pub fall_multiplier: i64,
    pub free_fall_speed: i64,
    pub low_multiplier: i64,
    pub move_speed: i64,
    pub acceleration_ground: i64,
    pub acceleration_air: i64,
    pub deceleration_ground: i64,
    pub deceleration_air: i64,
    pub jump_push: i64,
    pub jump_strength: i64,
}

impl SolverRules {
    pub open spec fn wf(&self) -> bool {
        &&& in_range(self.buffer_time as int)
        &&& in_range(self.coyote_time as int)
        &&& self.gravity.wf()
        &&& in_range(self.fall_multiplier as int)
        &&& 0 <= self.free_fall_speed <= LIMIT
        &&& in_range(self.low_multiplier as int)
        &&& in_range(self.move_speed as int)
        &&& 0 <= self.acceleration_ground <= LIMIT
        &&& 0 <= self.acceleration_air <= LIMIT
        &&& 0 <= self.deceleration_ground <= LIMIT
        &&& 0 <= self.deceleration_air <= LIMIT
        &&& in_range(self.jump_push as int)
        &&& in_range(self.jump_strength as int)
    }
}

/// The input of one tick: edge-triggered presses and held states.
#[derive(Debug, Clone, Copy)]
pub struct PlayerControl {
    /// The jump key was pressed this tick.
    pub jump: bool,
    /// The jump key is held.
    pub hold_jump: bool,
    /// Horizontal direction held: -1 (left), 0 or 1 (right).
    pub move_dir: i64,
    /// The pickup key was pressed this tick.
    pub pickup: bool,
}

impl PlayerControl {
    pub open spec fn wf(&self) -> bool {
        -1 <= self.move_dir <= 1
    }

    /// No input at all.
    pub fn none() -> (r: Self)
        ensures
            !r.jump,
            !r.hold_jump,
            r.move_dir == 0,
            !r.pickup,
    {
        PlayerControl { jump: false, hold_jump: false, move_dir: 0, pickup: false }
    }

    /// Hands out the input gathered so far and leaves none behind.
    pub fn take(&mut self) -> (r: Self)
        ensures
            r == *old(self),
            !final(self).jump,
            !final(self).hold_jump,
            final(self).move_dir == 0,
            !final(self).pickup,
    {
        let r = *self;
        *self = PlayerControl::none();
        r
    }
}

/// A timer after `dt` more milliseconds: it clears once it reaches zero.
pub open spec fn countdown(t: Option<i64>, dt: int) -> Option<i64> {
    match t {
        Some(v) => if v - dt <= 0 {
            None
        } else {
            Some((v - dt) as i64)
        },
        None => None,
    }
}

/// Step 1: every active timer runs down by `dt`.
pub open spec fn after_timers(p: Player, dt: int) -> Player {
    Player {
        animation_time: add_spec(p.animation_time as int, dt) as i64,
        coyote_time: countdown(p.coyote_time, dt),
        jump_buffer: countdown(p.jump_buffer, dt),
        control_timeout: countdown(p.control_timeout, dt),
        ..p
    }
}

/// Steps 2 to 4: a jump press fills the jump buffer, releasing the jump key ends
/// the jump hold, and the player faces the way it moves.
pub open spec fn after_input(p: Player, rules: SolverRules, control: PlayerControl) -> Player {
    let flip = (p.facing_left && p.velocity.x > 0) || (!p.facing_left && p.velocity.x < 0);
    Player {
        jump_buffer: if control.jump {
            Some(rules.buffer_time)
        } else {
            p.jump_buffer
        },
        can_hold_jump: p.can_hold_jump && control.hold_jump,
        facing_left: if flip {
            !p.facing_left
        } else {
            p.facing_left
        },
        ..p
    }
}

/// Step 5: gravity.
pub open spec fn after_gravity(p: Player, rules: SolverRules, dt: int) -> Player {
    Player {
        velocity: Vec2 {
            x: add_spec(p.velocity.x as int, mul_spec(rules.gravity.x as int, dt)) as i64,
            y: add_spec(p.velocity.y as int, mul_spec(rules.gravity.y as int, dt)) as i64,
        },
        ..p
    }
}

/// Step 6: falling is faster and capped; rising without holding the jump is
/// slowed down.
pub open spec fn after_variable_jump(
    p: Player,
    rules: SolverRules,
    control: PlayerControl,
    dt: int,
) -> Player {
    let vy = p.velocity.y as int;
    if vy < 0 {
        let extra = mul_spec(
            mul_spec(rules.gravity.y as int, sub_spec(rules.fall_multiplier as int, SCALE as int)),
            dt,
        );
        Player {
            velocity: Vec2 {
                x: p.velocity.x,
                y: clamp_abs_spec(add_spec(vy, extra), rules.free_fall_speed as int) as i64,
            },
            ..p
        }
    } else if vy > 0 && !(control.hold_jump && p.can_hold_jump) {
        let extra = mul_spec(
            mul_spec(rules.gravity.y as int, sub_spec(rules.low_multiplier as int, SCALE as int)),
            dt,
        );
        Player { velocity: Vec2 { x: p.velocity.x, y: add_spec(vy, extra) as i64 }, ..p }
    } else {
        p
    }
}

/// The horizontal acceleration used toward `target` from `current`.
pub open spec fn horizontal_acceleration(
    rules: SolverRules,
    grounded: bool,
    target: int,
    current: int,
) -> int {
    if target == 0 || signum_spec(target) != signum_spec(current) || abs_spec(target) > abs_spec(
        current,
    ) {
        if grounded {
            rules.acceleration_ground as int
        } else {
            rules.acceleration_air as int
        }
    } else {
        if grounded {
            rules.deceleration_ground as int
        } else {
            rules.deceleration_air as int
        }
    }
}

/// Step 7: unless control is suspended, the horizontal speed moves toward the
/// input direction times `move_speed`, by at most the acceleration times `dt`.
pub open spec fn after_horizontal(
    p: Player,
    rules: SolverRules,
    control: PlayerControl,
    dt: int,
) -> Player {
    if p.control_timeout is Some {
        p
    } else {
        let current = p.velocity.x as int;
        let target = (control.move_dir * rules.move_speed) as int;
        let acc = horizontal_acceleration(rules, p.state == PlayerState::Grounded, target, current);
        let change = clamp_abs_spec(sub_spec(target, current), mul_spec(acc, dt));
        Player { velocity: Vec2 { x: add_spec(current, change) as i64, y: p.velocity.y }, ..p }
    }
}

/// Whether a buffered jump fires: on the ground or within coyote time.
pub open spec fn jump_fires(p: Player) -> bool {
    p.jump_buffer is Some && (p.state == PlayerState::Grounded || p.coyote_time is Some)
}

/// Step 8: a buffered jump fires when allowed.
pub open spec fn after_jump(p: Player, rules: SolverRules, control: PlayerControl) -> Player {
    if jump_fires(p) {
        Player {
            coyote_time: None,
            jump_buffer: None,
            can_hold_jump: true,
            velocity: Vec2 {
                x: add_spec(p.velocity.x as int, (control.move_dir * rules.jump_push) as int) as i64,
                y: rules.jump_strength,
            },
            state: PlayerState::Airborn,
            ..p
        }
    } else {
        p
    }
}

/// Step 9: the position follows the velocity.
pub open spec fn after_integrate(p: Player, dt: int) -> Player {
    Player {
        collider: Collider {
            position: Vec2 {
                x: add_spec(p.collider.position.x as int, mul_spec(p.velocity.x as int, dt)) as i64,
                y: add_spec(p.collider.position.y as int, mul_spec(p.velocity.y as int, dt)) as i64,
            },
            ..p.collider
        },
        ..p
    }
}

/// The collision of `a` against `b` that `Collider::collide` reports.
pub open spec fn collision_of(a: Collider, b: Collider) -> Collision {
    Collision {
        normal: Vec2 { x: a.normal_x(&b) as i64, y: a.normal_y(&b) as i64 },
        penetration: a.penetration(&b) as i64,
    }
}

/// The player moved out of a collision, with its velocity along the normal
/// removed.
pub open spec fn pushed_out(p: Player, c: Collision) -> Player {
    Player {
        collider: Collider {
            position: Vec2 {
                x: sub_spec(p.collider.position.x as int, c.normal.x * c.penetration) as i64,
                y: sub_spec(p.collider.position.y as int, c.normal.y * c.penetration) as i64,
            },
            ..p.collider
        },
        velocity: Vec2 {
            x: if c.normal.x != 0 {
                0
            } else {
                p.velocity.x
            },
            y: if c.normal.y != 0 {
                0
            } else {
                p.velocity.y
            },
        },
        ..p
    }
}

/// The player after resolving its collision with `other`, if any.
pub open spec fn resolved_against(p: Player, other: Collider) -> Player {
    if p.collider.overlaps(&other) {
        pushed_out(p, collision_of(p.collider, other))
    } else {
        p
    }
}

/// The player after resolving its collisions with each of `cs` in turn.
pub open spec fn resolved_all(p: Player, cs: Seq<Collider>) -> Player
    decreases cs.len(),
{
    if cs.len() == 0 {
        p
    } else {
        resolved_against(resolved_all(p, cs.drop_last()), cs.last())
    }
}

/// The player after resolving, in turn, the collisions of the fixed probe
/// `feet` with each of `cs`.
pub open spec fn resolved_feet(p: Player, feet: Collider, cs: Seq<Collider>) -> Player
    decreases cs.len(),
{
    if cs.len() == 0 {
        p
    } else {
        let q = resolved_feet(p, feet, cs.drop_last());
        if feet.overlaps(&cs.last()) {
            pushed_out(q, collision_of(feet, cs.last()))
        } else {
            q
        }
    }
}

/// The narrow probe below the player: nine tenths of its width and the bottom
/// fifth of its height (its centre saturates at the edge of the coordinate range).
pub open spec fn feet_of(c: Collider) -> Collider {
    Collider {
        position: Vec2 {
            x: c.position.x,
            y: sub_spec(c.position.y as int, c.half_height - c.half_height / 5) as i64,
        },
        half_width: (c.half_width - c.half_width / 10) as i64,
        half_height: (c.half_height / 5) as i64,
    }
}

/// A pushable item that the player runs into and the player share the
/// correction: the player moves back by half of it, the item moves away by half
/// of its horizontal part.
pub open spec fn shoved(p: Player, item: SolverItem) -> (Player, SolverItem) {
    if item.pushable && p.collider.overlaps(&item.collider) {
        let c = collision_of(p.collider, item.collider);
        let ox = c.normal.x * c.penetration;
        let oy = c.normal.y * c.penetration;
        (
            Player {
                collider: Collider {
                    position: Vec2 {
                        x: sub_spec(p.collider.position.x as int, half_spec(ox)) as i64,
                        y: sub_spec(p.collider.position.y as int, half_spec(oy)) as i64,
                    },
                    ..p.collider
                },
                ..p
            },
            SolverItem {
                collider: Collider {
                    position: Vec2 {
                        x: add_spec(item.collider.position.x as int, half_spec(ox)) as i64,
                        y: item.collider.position.y,
                    },
                    ..item.collider
                },
                ..item
            },
        )
    } else {
        (p, item)
    }
}

/// The player and the items after the player pushed against each item in turn.
pub open spec fn shoved_all(p: Player, items: Seq<SolverItem>) -> (Player, Seq<SolverItem>)
    decreases items.len(),
{
    if items.len() == 0 {
        (p, items)
    } else {
        let (q, rest) = shoved_all(p, items.drop_last());
        let (q2, it) = shoved(q, items.last());
        (q2, rest.push(it))
    }
}

/// The player moved by `-direction * penetration / distance` (each component
/// rounded toward zero), with the part of its velocity along `direction`
/// removed.
pub open spec fn pushed_by(p: Player, c: Contact) -> Player {
    let vd = p.velocity.x * c.direction.x + p.velocity.y * c.direction.y;
    let d2 = c.distance * c.distance;
    Player {
        collider: Collider {
            position: Vec2 {
                x: sub_spec(
                    p.collider.position.x as int,
                    div_trunc(c.direction.x * c.penetration, c.distance as int),
                ) as i64,
                y: sub_spec(
                    p.collider.position.y as int,
                    div_trunc(c.direction.y * c.penetration, c.distance as int),
                ) as i64,
            },
            ..p.collider
        },
        velocity: Vec2 {
            x: sub_spec(p.velocity.x as int, div_trunc(c.direction.x * vd, d2)) as i64,
            y: sub_spec(p.velocity.y as int, div_trunc(c.direction.y * vd, d2)) as i64,
        },
        ..p
    }
}

/// The player after resolving its collision with the tilted wall `t`, if any.
pub open spec fn resolved_against_tilted(p: Player, t: TiltedBox) -> Player {
    let body = TiltedBox::of_rect(p.collider);
    if tilted_overlap(body, t) {
        pushed_by(p, tilted_contact(body, t))
    } else {
        p
    }
}

/// The player after resolving its collisions with each of `ts` in turn.
pub open spec fn resolved_tilted_all(p: Player, ts: Seq<TiltedBox>) -> Player
    decreases ts.len(),
{
    if ts.len() == 0 {
        p
    } else {
        resolved_against_tilted(resolved_tilted_all(p, ts.drop_last()), ts.last())
    }
}

/// Step 10: static geometry, the level's tilted walls, the entrance door, the exit door while the exit is
/// closed, the platforms while not rising (probed with the feet), and finally the
/// pushable items.
pub open spec fn after_collisions(
    p: Player,
    statics: Seq<Collider>,
    tilted: Seq<TiltedBox>,
    door_entrance: Collider,
    door_exit: Collider,
    exit_open: bool,
    platforms: Seq<Collider>,
    items: Seq<SolverItem>,
) -> (Player, Seq<SolverItem>) {
    let past_walls = resolved_tilted_all(resolved_all(p, statics), tilted);
    let past_entrance = resolved_against(past_walls, door_entrance);
    let past_doors = if exit_open {
        past_entrance
    } else {
        resolved_against(past_entrance, door_exit)
    };
    let past_platforms = if past_doors.velocity.y <= 0 {
        resolved_feet(past_doors, feet_of(past_doors.collider), platforms)
    } else {
        past_doors
    };
    shoved_all(past_platforms, items)
}

/// Whether `probe` touches one of `statics` or `platforms`, a shared edge
/// included, or overlaps one of the tilted walls.
pub open spec fn touches_any(
    probe: Collider,
    statics: Seq<Collider>,
    tilted: Seq<TiltedBox>,
    platforms: Seq<Collider>,
) -> bool {
    ||| (exists|i: int| 0 <= i < statics.len() && probe.touches(&statics[i]))
    ||| (exists|i: int|
        0 <= i < tilted.len() && tilted_overlap(TiltedBox::of_rect(probe), tilted[i]))
    ||| (exists|i: int| 0 <= i < platforms.len() && probe.touches(&platforms[i]))
}

/// Step 11: the player is grounded exactly when it is not rising and its feet
/// touch the level; landing refills the coyote time.
pub open spec fn after_ground(
    p: Player,
    rules: SolverRules,
    statics: Seq<Collider>,
    tilted: Seq<TiltedBox>,
    platforms: Seq<Collider>,
) -> Player {
    if p.velocity.y <= 0 && touches_any(feet_of(p.collider), statics, tilted, platforms) {
        Player { state: PlayerState::Grounded, coyote_time: Some(rules.coyote_time), ..p }
    } else {
        Player { state: PlayerState::Airborn, ..p }
    }
}

/// Which animation fits the player.
pub open spec fn animation_of(p: Player) -> PlayerAnimationState {
    match p.state {
        PlayerState::Grounded => if abs_spec(p.velocity.x as int) > RUNNING_SPEED {
            PlayerAnimationState::Running
        } else {
            PlayerAnimationState::Idle
        },
        PlayerState::Airborn => PlayerAnimationState::Jumping,
    }
}

/// Horizontal speed above which a grounded player runs.
pub const RUNNING_SPEED: i64 = 10;

impl Player {
    /// Step 1.
    pub fn update_timers(&mut self, dt: i64)
        requires
            old(self).wf(),
            0 <= dt <= LIMIT,
        ensures
            *final(self) == after_timers(*old(self), dt as int),
            final(self).wf(),
    {
        self.animation_time = fx_add(self.animation_time, dt);
        self.coyote_time = tick_down(self.coyote_time, dt);
        self.jump_buffer = tick_down(self.jump_buffer, dt);
        self.control_timeout = tick_down(self.control_timeout, dt);
    }

    /// Steps 2 to 4.
    pub fn register_input(&mut self, rules: &SolverRules, control: &PlayerControl)
        requires
            old(self).wf(),
            rules.wf(),
        ensures
            *final(self) == after_input(*old(self), *rules, *control),
            final(self).wf(),
    {
        if control.jump {
            self.jump_buffer = Some(rules.buffer_time);
        }
        if self.can_hold_jump && !control.hold_jump {
            self.can_hold_jump = false;
        }
        if (self.facing_left && self.velocity.x > 0) || (!self.facing_left && self.velocity.x < 0) {
            self.facing_left = !self.facing_left;
        }
    }

    /// Step 5.
    pub fn apply_gravity(&mut self, rules: &SolverRules, dt: i64)
        requires
            old(self).wf(),
            rules.wf(),
            0 <= dt <= LIMIT,
        ensures
            *final(self) == after_gravity(*old(self), *rules, dt as int),
            final(self).wf(),
    {
        let gx = fx_mul(rules.gravity.x, dt);
        let gy = fx_mul(rules.gravity.y, dt);
        self.velocity = Vec2 { x: fx_add(self.velocity.x, gx), y: fx_add(self.velocity.y, gy) };
    }

    /// Step 6.
    pub fn variable_jump(&mut self, rules: &SolverRules, control: &PlayerControl, dt: i64)
        requires
            old(self).wf(),
            rules.wf(),
            0 <= dt <= LIMIT,
        ensures
            *final(self) == after_variable_jump(*old(self), *rules, *control, dt as int),
            final(self).wf(),
    {
        if self.velocity.y < 0 {
            let m = fx_sub(rules.fall_multiplier, SCALE);
            let extra = fx_mul(fx_mul(rules.gravity.y, m), dt);
            let vy = fx_clamp_abs(fx_add(self.velocity.y, extra), rules.free_fall_speed);
            self.velocity = Vec2 { x: self.velocity.x, y: vy };
        } else if self.velocity.y > 0 && !(control.hold_jump && self.can_hold_jump) {
            let m = fx_sub(rules.low_multiplier, SCALE);
            let extra = fx_mul(fx_mul(rules.gravity.y, m), dt);
            self.velocity = Vec2 { x: self.velocity.x, y: fx_add(self.velocity.y, extra) };
        }
    }

    /// Step 7.
    pub fn horizontal_control(&mut self, rules: &SolverRules, control: &PlayerControl, dt: i64)
        requires
            old(self).wf(),
            rules.wf(),
            control.wf(),
            0 <= dt <= LIMIT,
        ensures
            *final(self) == after_horizontal(*old(self), *rules, *control, dt as int),
            final(self).wf(),
    {
        if self.control_timeout.is_some() {
            return ;
        }
        let current = self.velocity.x;
        let target = times_dir(control.move_dir, rules.move_speed);
        let grounded = match self.state {
            PlayerState::Grounded => true,
            PlayerState::Airborn => false,
        };
        let accelerate = target == 0 || fx_signum(target) != fx_signum(current) || fx_abs(target)
            > fx_abs(current);
        let acc = if accelerate {
            if grounded {
                rules.acceleration_ground
            } else {
                rules.acceleration_air
            }
        } else {
            if grounded {
                rules.deceleration_ground
            } else {
                rules.deceleration_air
            }
        };
        let cap = fx_mul(acc, dt);
        assert(cap >= 0) by (nonlinear_arith)
            requires
                acc >= 0,
                dt >= 0,
                cap == mul_spec(acc as int, dt as int),
        ;
        let change = fx_clamp_abs(fx_sub(target, current), cap);
        self.velocity = Vec2 { x: fx_add(current, change), y: self.velocity.y };
    }

    /// Step 8.
    pub fn jump(&mut self, rules: &SolverRules, control: &PlayerControl)
        requires
            old(self).wf(),
            rules.wf(),
            control.wf(),
        ensures
            *final(self) == after_jump(*old(self), *rules, *control),
            final(self).wf(),
    {
        if self.jump_buffer.is_none() {
            return ;
        }
        let can_jump = match self.state {
            PlayerState::Grounded => true,
            PlayerState::Airborn => self.coyote_time.is_some(),
        };
        if !can_jump {
            return ;
        }
        self.coyote_time = None;
        self.jump_buffer = None;
        self.can_hold_jump = true;
        let push = times_dir(control.move_dir, rules.jump_push);
        self.velocity = Vec2 { x: fx_add(self.velocity.x, push), y: rules.jump_strength };
        self.state = PlayerState::Airborn;
    }

    /// Step 9.
    pub fn integrate(&mut self, dt: i64)
        requires
            old(self).wf(),
            0 <= dt <= LIMIT,
        ensures
            *final(self) == after_integrate(*old(self), dt as int),
            final(self).wf(),
    {
        let dx = fx_mul(self.velocity.x, dt);
        let dy = fx_mul(self.velocity.y, dt);
        let pos = Vec2 {
            x: fx_add(self.collider.position.x, dx),
            y: fx_add(self.collider.position.y, dy),
        };
        self.collider = Collider { position: pos, ..self.collider };
    }
}

fn any_tilted_overlap(probe: &Collider, ts: &Vec<TiltedBox>) -> (r: bool)
    requires
        probe.wf(),
        forall|i: int| 0 <= i < ts@.len() ==> (#[trigger] ts@[i]).wf(),
    ensures
        r == exists|i: int|
            0 <= i < ts@.len() && tilted_overlap(TiltedBox::of_rect(*probe), ts@[i]),
{
    let body = TiltedBox::from_rect(probe);
    let mut i: usize = 0;
    while i < ts.len()
        invariant
            body == TiltedBox::of_rect(*probe),
            body.wf(),
            forall|k: int| 0 <= k < ts@.len() ==> (#[trigger] ts@[k]).wf(),
            i <= ts@.len(),
            forall|k: int| 0 <= k < i ==> !tilted_overlap(body, #[trigger] ts@[k]),
        decreases ts@.len() - i,
    {
        if body.check(&ts[i]) {
            return true;
        }
        i = i + 1;
    }
    false
}

fn any_touch(probe: &Collider, cs: &Vec<Collider>) -> (r: bool)
    requires
        probe.wf(),
        forall|i: int| 0 <= i < cs@.len() ==> (#[trigger] cs@[i]).wf(),
    ensures
        r == exists|i: int| 0 <= i < cs@.len() && probe.touches(&cs@[i]),
{
    let mut i: usize = 0;
    while i < cs.len()
        invariant
            probe.wf(),
            forall|k: int| 0 <= k < cs@.len() ==> (#[trigger] cs@[k]).wf(),
            i <= cs@.len(),
            forall|k: int| 0 <= k < i ==> !probe.touches(&#[trigger] cs@[k]),
        decreases cs@.len() - i,
    {
        if probe.touching(&cs[i]) {
            return true;
        }
        i = i + 1;
    }
    false
}

impl Player {
    /// The feet probe of the player.
    pub fn feet_collider(&self) -> (r: Collider)
        requires
            self.wf(),
        ensures
            r == feet_of(self.collider),
            r.wf(),
    {
        let c = self.collider;
        let hh = c.half_height / 5;
        Collider::rect(
            Vec2::new(c.position.x, fx_sub(c.position.y, c.half_height - hh)),
            c.half_width - c.half_width / 10,
            hh,
        )
    }

    pub fn animation_state(&self) -> (r: PlayerAnimationState)
        requires
            self.wf(),
        ensures
            r == animation_of(*self),
    {
        match self.state {
            PlayerState::Grounded => if fx_abs(self.velocity.x) > RUNNING_SPEED {
                PlayerAnimationState::Running
            } else {
                PlayerAnimationState::Idle
            },
            PlayerState::Airborn => PlayerAnimationState::Jumping,
        }
    }

    fn push_out(&mut self, c: Collision)
        requires
            old(self).wf(),
            -1 <= c.normal.x <= 1,
            -1 <= c.normal.y <= 1,
            0 <= c.penetration <= 4 * LIMIT,
        ensures
            *final(self) == pushed_out(*old(self), c),
            final(self).wf(),
    {
        let dx = times_dir(c.normal.x, c.penetration);
        let dy = times_dir(c.normal.y, c.penetration);
        let pos = Vec2 {
            x: fx_sub(self.collider.position.x, dx),
            y: fx_sub(self.collider.position.y, dy),
        };
        self.collider = Collider { position: pos, ..self.collider };
        let vx = if c.normal.x != 0 {
            0
        } else {
            self.velocity.x
        };
        let vy = if c.normal.y != 0 {
            0
        } else {
            self.velocity.y
        };
        self.velocity = Vec2 { x: vx, y: vy };
    }

    fn resolve_against(&mut self, other: &Collider)
        requires
            old(self).wf(),
            other.wf(),
        ensures
            *final(self) == resolved_against(*old(self), *other),
            final(self).wf(),
    {
        match self.collider.collide(other) {
            Some(c) => {
                proof {
                    lemma_collision_bounds(self.collider, *other);
                }
                assert(c == collision_of(self.collider, *other));
                self.push_out(c);
            },
            None => {},
        }
    }
}

impl Player {
    fn shove(&mut self, item: &mut SolverItem)
        requires
            old(self).wf(),
            old(item).wf(),
        ensures
            (*final(self), *final(item)) == shoved(*old(self), *old(item)),
            final(self).wf(),
            final(item).wf(),
    {
        if !item.pushable {
            return ;
        }
        match self.collider.collide(&item.collider) {
            Some(c) => {
                proof {
                    lemma_collision_bounds(self.collider, item.collider);
                }
                let hx = fx_half(times_dir(c.normal.x, c.penetration));
                let hy = fx_half(times_dir(c.normal.y, c.penetration));
                let pos = Vec2 {
                    x: fx_sub(self.collider.position.x, hx),
                    y: fx_sub(self.collider.position.y, hy),
                };
                self.collider = Collider { position: pos, ..self.collider };
                let ipos = Vec2 {
                    x: fx_add(item.collider.position.x, hx),
                    y: item.collider.position.y,
                };
                item.collider = Collider { position: ipos, ..item.collider };
            },
            None => {},
        }
    }

    fn resolve_all(&mut self, cs: &Vec<Collider>)
        requires
            old(self).wf(),
            forall|i: int| 0 <= i < cs@.len() ==> (#[trigger] cs@[i]).wf(),
        ensures
            *final(self) == resolved_all(*old(self), cs@),
            final(self).wf(),
    {
        let ghost p0 = *self;
        let mut i: usize = 0;
        assert(cs@.take(0) == Seq::<Collider>::empty());
        while i < cs.len()
            invariant
                forall|k: int| 0 <= k < cs@.len() ==> (#[trigger] cs@[k]).wf(),
                self.wf(),
                i <= cs@.len(),
                *self == resolved_all(p0, cs@.take(i as int)),
            decreases cs@.len() - i,
        {
            assert(cs@.take(i + 1).drop_last() == cs@.take(i as int));
            self.resolve_against(&cs[i]);
            i = i + 1;
        }
        assert(cs@.take(cs@.len() as int) == cs@);
    }

    fn push_by(&mut self, c: Contact)
        requires
            old(self).wf(),
            -AXIS_LIMIT <= c.direction.x <= AXIS_LIMIT,
            -AXIS_LIMIT <= c.direction.y <= AXIS_LIMIT,
            1 <= c.distance <= AXIS_LIMIT,
            0 <= c.penetration <= 4 * LIMIT,
        ensures
            *final(self) == pushed_by(*old(self), c),
            final(self).wf(),
    {
        let dx = c.direction.x as i128;
        let dy = c.direction.y as i128;
        let pen = c.penetration as i128;
        let dist = c.distance as i128;
        let vx = self.velocity.x as i128;
        let vy = self.velocity.y as i128;
        proof {
            crate::tilted::lemma_mul_bound(dx as int, pen as int, AXIS_LIMIT as int, 4 * LIMIT);
            crate::tilted::lemma_mul_bound(dy as int, pen as int, AXIS_LIMIT as int, 4 * LIMIT);
            crate::tilted::lemma_mul_bound(vx as int, dx as int, LIMIT as int, AXIS_LIMIT as int);
            crate::tilted::lemma_mul_bound(vy as int, dy as int, LIMIT as int, AXIS_LIMIT as int);
        }
        let vd = vx * dx + vy * dy;
        proof {
            crate::tilted::lemma_mul_bound(dx as int, vd as int, AXIS_LIMIT as int, 2 * LIMIT * AXIS_LIMIT);
            crate::tilted::lemma_mul_bound(dy as int, vd as int, AXIS_LIMIT as int, 2 * LIMIT * AXIS_LIMIT);
            crate::tilted::lemma_mul_bound(dist as int, dist as int, AXIS_LIMIT as int, AXIS_LIMIT as int);
            assert(dist * dist >= 1) by (nonlinear_arith)
                requires
                    dist >= 1,
            ;
        }
        let mx = div_trunc_wide(dx * pen, dist);
        let my = div_trunc_wide(dy * pen, dist);
        let wx = div_trunc_wide(dx * vd, dist * dist);
        let wy = div_trunc_wide(dy * vd, dist * dist);
        let pos = Vec2 {
            x: saturate(self.collider.position.x as i128 - mx),
            y: saturate(self.collider.position.y as i128 - my),
        };
        self.collider = Collider { position: pos, ..self.collider };
        self.velocity = Vec2 { x: saturate(vx - wx), y: saturate(vy - wy) };
    }

    fn resolve_tilted(&mut self, t: &TiltedBox)
        requires
            old(self).wf(),
            t.wf(),
        ensures
            *final(self) == resolved_against_tilted(*old(self), *t),
            final(self).wf(),
    {
        let body = TiltedBox::from_rect(&self.collider);
        match body.collide(t) {
            Some(c) => {
                self.push_by(c);
            },
            None => {},
        }
    }

    fn resolve_tilted_all(&mut self, ts: &Vec<TiltedBox>)
        requires
            old(self).wf(),
            forall|i: int| 0 <= i < ts@.len() ==> (#[trigger] ts@[i]).wf(),
        ensures
            *final(self) == resolved_tilted_all(*old(self), ts@),
            final(self).wf(),
    {
        let ghost p0 = *self;
        let mut i: usize = 0;
        assert(ts@.take(0) == Seq::<TiltedBox>::empty());
        while i < ts.len()
            invariant
                forall|k: int| 0 <= k < ts@.len() ==> (#[trigger] ts@[k]).wf(),
                self.wf(),
                i <= ts@.len(),
                *self == resolved_tilted_all(p0, ts@.take(i as int)),
            decreases ts@.len() - i,
        {
            assert(ts@.take(i + 1).drop_last() == ts@.take(i as int));
            self.resolve_tilted(&ts[i]);
            i = i + 1;
        }
        assert(ts@.take(ts@.len() as int) == ts@);
    }

    fn resolve_feet(&mut self, feet: &Collider, cs: &Vec<Collider>)
        requires
            old(self).wf(),
            feet.wf(),
            forall|i: int| 0 <= i < cs@.len() ==> (#[trigger] cs@[i]).wf(),
        ensures
            *final(self) == resolved_feet(*old(self), *feet, cs@),
            final(self).wf(),
    {
        let ghost p0 = *self;
        let mut j: usize = 0;
        assert(cs@.take(0) == Seq::<Collider>::empty());
        while j < cs.len()
            invariant
                forall|k: int| 0 <= k < cs@.len() ==> (#[trigger] cs@[k]).wf(),
                self.wf(),
                feet.wf(),
                j <= cs@.len(),
                *self == resolved_feet(p0, *feet, cs@.take(j as int)),
            decreases cs@.len() - j,
        {
            assert(cs@.take(j + 1).drop_last() == cs@.take(j as int));
            match feet.collide(&cs[j]) {
                Some(c) => {
                    proof {
                        lemma_collision_bounds(*feet, cs@[j as int]);
                    }
                    assert(c == collision_of(*feet, cs@[j as int]));
                    self.push_out(c);
                },
                None => {},
            }
            j = j + 1;
        }
        assert(cs@.take(cs@.len() as int) == cs@);
    }

    fn shove_all(&mut self, items: &mut Vec<SolverItem>)
        requires
            old(self).wf(),
            forall|i: int| 0 <= i < old(items)@.len() ==> (#[trigger] old(items)@[i]).wf(),
        ensures
            (*final(self), final(items)@) == shoved_all(*old(self), old(items)@),
            final(self).wf(),
            forall|i: int| 0 <= i < final(items)@.len() ==> (#[trigger] final(items)@[i]).wf(),
    {
        let ghost start = *self;
        let ghost orig = items@;
        let mut k: usize = 0;
        assert(orig.take(0) == Seq::<SolverItem>::empty());
        assert(orig.skip(0) == orig);
        while k < items.len()
            invariant
                self.wf(),
                k <= items@.len(),
                items@.len() == orig.len(),
                forall|m: int| 0 <= m < items@.len() ==> (#[trigger] items@[m]).wf(),
                *self == shoved_all(start, orig.take(k as int)).0,
                items@ == shoved_all(start, orig.take(k as int)).1 + orig.skip(k as int),
                shoved_all(start, orig.take(k as int)).1.len() == k,
            decreases items@.len() - k,
        {
            assert(orig.take(k + 1).drop_last() == orig.take(k as int));
            assert(items@[k as int] == orig[k as int]);
            {
                let it = &mut items[k];
                self.shove(it);
            }
            assert(items@ =~= shoved_all(start, orig.take(k + 1)).1 + orig.skip(k + 1));
            k = k + 1;
        }
        assert(orig.take(orig.len() as int) == orig);
        assert(items@ =~= shoved_all(start, orig).1);
    }

    /// Step 10: moves the player out of the level's geometry and pushes items.
    pub fn move_and_collide(
        &mut self,
        geometry: &LevelGeometry,
        exit_open: bool,
        items: &mut Vec<SolverItem>,
    )
        requires
            old(self).wf(),
            geometry.wf(),
            forall|i: int| 0 <= i < old(items)@.len() ==> (#[trigger] old(items)@[i]).wf(),
        ensures
            (*final(self), final(items)@) == after_collisions(
                *old(self),
                geometry.statics@,
                geometry.tilted@,
                geometry.door_entrance,
                geometry.door_exit,
                exit_open,
                geometry.platforms@,
                old(items)@,
            ),
            final(self).wf(),
            forall|i: int| 0 <= i < final(items)@.len() ==> (#[trigger] final(items)@[i]).wf(),
    {
        self.resolve_all(&geometry.statics);
        self.resolve_tilted_all(&geometry.tilted);
        self.resolve_against(&geometry.door_entrance);
        if !exit_open {
            self.resolve_against(&geometry.door_exit);
        }
        if self.velocity.y <= 0 {
            let feet = self.feet_collider();
            self.resolve_feet(&feet, &geometry.platforms);
        }
        self.shove_all(items);
    }

    /// Step 11: recomputes whether the player stands on something.
    pub fn check_ground(&mut self, rules: &SolverRules, geometry: &LevelGeometry)
        requires
            old(self).wf(),
            rules.wf(),
            geometry.wf(),
        ensures
            *final(self) == after_ground(
                *old(self),
                *rules,
                geometry.statics@,
                geometry.tilted@,
                geometry.platforms@,
            ),
            final(self).wf(),
    {
        let feet = self.feet_collider();
        let grounded = self.velocity.y <= 0 && (any_touch(&feet, &geometry.statics)
            || any_tilted_overlap(&feet, &geometry.tilted) || any_touch(&feet, &geometry.platforms));
        if grounded {
            self.state = PlayerState::Grounded;
            self.coyote_time = Some(rules.coyote_time);
        } else {
            self.state = PlayerState::Airborn;
        }
    }
}

/// Distance in front of the player at which a dropped item lands.
pub const DROP_DISTANCE: i64 = 500;

/// Whether the player can pick up `it`.
pub open spec fn pickable(it: SolverItem, p: Player) -> bool {
    it.can_pickup && it.collider.overlaps(&p.collider)
}

/// The index of the first item the player can pick up, or -1.
pub open spec fn first_pickable(items: Seq<SolverItem>, p: Player) -> int
    decreases items.len(),
{
    if items.len() == 0 {
        -1
    } else {
        let f = first_pickable(items.drop_last(), p);
        if f >= 0 {
            f
        } else if pickable(items.last(), p) {
            items.len() - 1
        } else {
            -1
        }
    }
}

/// A held item put down in front of the player.
pub open spec fn dropped(it: SolverItem, p: Player) -> SolverItem {
    SolverItem {
        collider: Collider {
            position: Vec2 {
                x: add_spec(
                    p.collider.position.x as int,
                    if p.facing_left {
                        -DROP_DISTANCE
                    } else {
                        DROP_DISTANCE as int
                    },
                ) as i64,
                y: p.collider.position.y,
            },
            ..it.collider
        },
        ..it
    }
}

/// The pickup key puts down the held item, or else picks up the first item in
/// reach (which leaves the list by a swap with the last one).
pub open spec fn after_pickup(
    p: Player,
    control: PlayerControl,
    items: Seq<SolverItem>,
    held: Option<SolverItem>,
) -> (Seq<SolverItem>, Option<SolverItem>) {
    if !control.pickup {
        (items, held)
    } else {
        match held {
            Some(it) => (items.push(dropped(it, p)), None),
            None => {
                let i = first_pickable(items, p);
                if i < 0 {
                    (items, None)
                } else {
                    (items.update(i, items.last()).drop_last(), Some(items[i]))
                }
            },
        }
    }
}

/// Steps 1 to 5 of a tick.
pub open spec fn early_steps(p: Player, rules: SolverRules, control: PlayerControl, dt: int) -> Player {
    after_gravity(after_input(after_timers(p, dt), rules, control), rules, dt)
}

/// Steps 6 to 9 of a tick.
pub open spec fn late_steps(p: Player, rules: SolverRules, control: PlayerControl, dt: int) -> Player {
    after_integrate(
        after_jump(
            after_horizontal(after_variable_jump(p, rules, control, dt), rules, control, dt),
            rules,
            control,
        ),
        dt,
    )
}

/// A whole tick of the controller: steps 1 to 5, the pickup key, steps 6 to 11;
/// the animation clock restarts when the animation changes. Gives the player,
/// the level's items and the held item.
pub open spec fn stepped(
    p: Player,
    rules: SolverRules,
    control: PlayerControl,
    geometry: LevelGeometry,
    exit_open: bool,
    items: Seq<SolverItem>,
    held: Option<SolverItem>,
    dt: int,
) -> (Player, Seq<SolverItem>, Option<SolverItem>) {
    let early = early_steps(p, rules, control, dt);
    let (items1, held1) = after_pickup(early, control, items, held);
    let (q, moved) = after_collisions(
        late_steps(early, rules, control, dt),
        geometry.statics@,
        geometry.tilted@,
        geometry.door_entrance,
        geometry.door_exit,
        exit_open,
        geometry.platforms@,
        items1,
    );
    let g = after_ground(q, rules, geometry.statics@, geometry.tilted@, geometry.platforms@);
    if animation_of(g) != animation_of(p) {
        (Player { animation_time: 0, ..g }, moved, held1)
    } else {
        (g, moved, held1)
    }
}

impl Player {
    /// The pickup key: puts down the held item or picks one up.
    pub fn pickup(
        &self,
        control: &PlayerControl,
        items: &mut Vec<SolverItem>,
        held: &mut Option<SolverItem>,
    )
        requires
            self.wf(),
            forall|i: int| 0 <= i < old(items)@.len() ==> (#[trigger] old(items)@[i]).wf(),
            *old(held) matches Some(it) ==> it.wf(),
        ensures
            (final(items)@, *final(held)) == after_pickup(*self, *control, old(items)@, *old(held)),
            forall|i: int| 0 <= i < final(items)@.len() ==> (#[trigger] final(items)@[i]).wf(),
            *final(held) matches Some(it) ==> it.wf(),
    {
        if !control.pickup {
            return ;
        }
        let taken = held.take();
        assert(*held is None);
        match taken {
            Some(it) => {
                let offset = if self.facing_left {
                    -DROP_DISTANCE
                } else {
                    DROP_DISTANCE
                };
                let pos = Vec2::new(fx_add(self.collider.position.x, offset), self.collider.position.y);
                items.push(SolverItem { collider: Collider { position: pos, ..it.collider }, ..it });
                assert(*held is None);
                assert(items@ == old(items)@.push(dropped(it, *self)));
            },
            None => {
                let mut i: usize = 0;
                while i < items.len()
                    invariant
                        i <= items@.len(),
                        items@ == old(items)@,
                        *held is None,
                        *old(held) is None,
                        control.pickup,
                        self.wf(),
                        forall|k: int| 0 <= k < items@.len() ==> (#[trigger] items@[k]).wf(),
                        first_pickable(items@.take(i as int), *self) == -1,
                    decreases items@.len() - i,
                {
                    assert(items@.take(i + 1).drop_last() == items@.take(i as int));
                    assert(items@[i as int].wf());
                    if items[i].can_pickup && items[i].collider.check(&self.collider) {
                        proof {
                            lemma_first_pickable_prefix(items@, *self, i as int);
                        }
                        let it = items.swap_remove(i);
                        *held = Some(it);
                        assert(it == old(items)@[i as int]);
                        assert(items@ == old(items)@.update(i as int, old(items)@.last()).drop_last());
                        return ;
                    }
                    i = i + 1;
                }
                assert(items@.take(items@.len() as int) == items@);
            },
        }
    }

    /// One tick of the controller, in the fixed order of its steps.
    pub fn update(
        &mut self,
        rules: &SolverRules,
        control: &PlayerControl,
        geometry: &LevelGeometry,
        exit_open: bool,
        items: &mut Vec<SolverItem>,
        held: &mut Option<SolverItem>,
        dt: i64,
    )
        requires
            old(self).wf(),
            rules.wf(),
            control.wf(),
            geometry.wf(),
            forall|i: int| 0 <= i < old(items)@.len() ==> (#[trigger] old(items)@[i]).wf(),
            *old(held) matches Some(it) ==> it.wf(),
            0 <= dt <= LIMIT,
        ensures
            (*final(self), final(items)@, *final(held)) == stepped(
                *old(self),
                *rules,
                *control,
                *geometry,
                exit_open,
                old(items)@,
                *old(held),
                dt as int,
            ),
            final(self).wf(),
            forall|i: int| 0 <= i < final(items)@.len() ==> (#[trigger] final(items)@[i]).wf(),
            *final(held) matches Some(it) ==> it.wf(),
    {
        let anim = self.animation_state();
        self.update_timers(dt);
        self.register_input(rules, control);
        self.apply_gravity(rules, dt);
        self.pickup(control, items, held);
        self.variable_jump(rules, control, dt);
        self.horizontal_control(rules, control, dt);
        self.jump(rules, control);
        self.integrate(dt);
        self.move_and_collide(geometry, exit_open, items);
        self.check_ground(rules, geometry);
        if self.animation_state() != anim {
            self.animation_time = 0;
        }
    }
}

/// Where item `i` is the first pickable one of `items.take(i + 1)` after none
/// before it, it is the first pickable one of `items`.
proof fn lemma_first_pickable_prefix(items: Seq<SolverItem>, p: Player, i: int)
    requires
        0 <= i < items.len(),
        first_pickable(items.take(i), p) == -1,
        pickable(items[i], p),
    ensures
        first_pickable(items, p) == i,
    decreases items.len(),
{
    if items.len() == i + 1 {
        assert(items.drop_last() == items.take(i));
    } else {
        assert(items.drop_last().take(i) == items.take(i));
        assert(items.drop_last()[i] == items[i]);
        lemma_first_pickable_prefix(items.drop_last(), p, i);
    }
}

/// A jump pressed while airborne but still within coyote time fires: the
/// vertical speed becomes exactly the jump strength and the player is airborne.
pub proof fn lemma_coyote_jump(p: Player, rules: SolverRules, control: PlayerControl)
    requires
        p.wf(),
        rules.wf(),
        control.wf(),
        p.state == PlayerState::Airborn,
        p.jump_buffer is Some,
        p.coyote_time is Some,
        in_range(p.velocity.x + control.move_dir * rules.jump_push),
    ensures
        after_jump(p, rules, control).velocity.y == rules.jump_strength,
        after_jump(p, rules, control).velocity.x == p.velocity.x + control.move_dir
            * rules.jump_push,
        after_jump(p, rules, control).state == PlayerState::Airborn,
        after_jump(p, rules, control).coyote_time is None,
        after_jump(p, rules, control).jump_buffer is None,
        after_jump(p, rules, control).can_hold_jump,
{
}

/// Once coyote time is over, an airborne player cannot jump: the velocity
/// stays as it was.
pub proof fn lemma_no_jump_after_coyote(p: Player, rules: SolverRules, control: PlayerControl)
    requires
        p.state == PlayerState::Airborn,
        p.coyote_time is None,
    ensures
        after_jump(p, rules, control) == p,
{
}

/// A player that overlaps nothing keeps its place and its speed through
/// the collision step, and the items stay where they are.
pub proof fn lemma_no_contact_no_change(
    p: Player,
    statics: Seq<Collider>,
    tilted: Seq<TiltedBox>,
    door_entrance: Collider,
    door_exit: Collider,
    exit_open: bool,
    platforms: Seq<Collider>,
    items: Seq<SolverItem>,
)
    requires
        forall|i: int| 0 <= i < statics.len() ==> !p.collider.overlaps(&statics[i]),
        forall|i: int|
            0 <= i < tilted.len() ==> !tilted_overlap(TiltedBox::of_rect(p.collider), tilted[i]),
        !p.collider.overlaps(&door_entrance),
        !p.collider.overlaps(&door_exit),
        forall|i: int| 0 <= i < platforms.len() ==> !feet_of(p.collider).overlaps(&platforms[i]),
        forall|i: int| 0 <= i < items.len() ==> !p.collider.overlaps(&items[i].collider),
    ensures
        after_collisions(p, statics, tilted, door_entrance, door_exit, exit_open, platforms, items)
            == (p, items),
{
    lemma_resolved_all_none(p, statics);
    lemma_resolved_tilted_none(p, tilted);
    lemma_resolved_feet_none(p, feet_of(p.collider), platforms);
    lemma_shoved_none(p, items);
}

proof fn lemma_resolved_all_none(p: Player, cs: Seq<Collider>)
    requires
        forall|i: int| 0 <= i < cs.len() ==> !p.collider.overlaps(&cs[i]),
    ensures
        resolved_all(p, cs) == p,
    decreases cs.len(),
{
    if cs.len() > 0 {
        lemma_resolved_all_none(p, cs.drop_last());
    }
}

proof fn lemma_resolved_tilted_none(p: Player, ts: Seq<TiltedBox>)
    requires
        forall|i: int|
            0 <= i < ts.len() ==> !tilted_overlap(TiltedBox::of_rect(p.collider), ts[i]),
    ensures
        resolved_tilted_all(p, ts) == p,
    decreases ts.len(),
{
    if ts.len() > 0 {
        lemma_resolved_tilted_none(p, ts.drop_last());
    }
}

proof fn lemma_resolved_feet_none(p: Player, feet: Collider, cs: Seq<Collider>)
    requires
        forall|i: int| 0 <= i < cs.len() ==> !feet.overlaps(&cs[i]),
    ensures
        resolved_feet(p, feet, cs) == p,
    decreases cs.len(),
{
    if cs.len() > 0 {
        lemma_resolved_feet_none(p, feet, cs.drop_last());
    }
}

proof fn lemma_shoved_none(p: Player, items: Seq<SolverItem>)
    requires
        forall|i: int| 0 <= i < items.len() ==> !p.collider.overlaps(&items[i].collider),
    ensures
        shoved_all(p, items) == (p, items),
    decreases items.len(),
{
    if items.len() > 0 {
        lemma_shoved_none(p, items.drop_last());
        assert(items.drop_last().push(items.last()) == items);
    }
}

proof fn lemma_collision_bounds(a: Collider, b: Collider)
    requires
        a.wf(),
        b.wf(),
        a.overlaps(&b),
    ensures
        -1 <= a.normal_x(&b) <= 1,
        -1 <= a.normal_y(&b) <= 1,
        0 < a.penetration(&b) <= 4 * LIMIT,
        collision_of(a, b).normal.x == a.normal_x(&b),
        collision_of(a, b).normal.y == a.normal_y(&b),
        collision_of(a, b).penetration == a.penetration(&b),
{
}

fn times_dir(dir: i64, x: i64) -> (r: i64)
    requires
        -1 <= dir <= 1,
        -4 * LIMIT <= x <= 4 * LIMIT,
    ensures
        r == dir * x,
        -4 * LIMIT <= r <= 4 * LIMIT,
        in_range(x as int) ==> in_range(r as int),
{
    if dir > 0 {
        assert(dir * x == x) by (nonlinear_arith)
            requires
                dir == 1,
        ;
        x
    } else if dir < 0 {
        assert(dir * x == -x) by (nonlinear_arith)
            requires
                dir == -1,
        ;
        -x
    } else {
        assert(dir * x == 0) by (nonlinear_arith)
            requires
                dir == 0,
        ;
        0
    }
}

fn tick_down(t: Option<i64>, dt: i64) -> (r: Option<i64>)
    requires
        timer_wf(t),
        0 <= dt <= LIMIT,
    ensures
        r == countdown(t, dt as int),
        timer_wf(r),
{
    match t {
        Some(v) => if v - dt <= 0 {
            None
        } else {
            Some(v - dt)
        },
        None => None,
    }
}

} // verus!

//! The solver's side of the game: its actor, the level it stands in, and the
//! shared puzzle progress.
use vstd::prelude::*;

use crate::collider::{deepest_collision, lemma_resolution_separates, Collider, Collision, Vec2};
use crate::fixed::{add_spec, fx_add, fx_mul, fx_sub, in_range, mul_spec, sub_spec, LIMIT};
use crate::interop::ServerMessage;
use crate::level::{LevelGeometry, SolverItem, SolverItemKind, SolverLevel};
use crate::model::{DispatcherState, Player, PlayerState, SolverState};
use crate::player::{stepped, PlayerControl, SolverRules};

verus! {

/// Height below which the player is brought back to the spawn point.
pub const OUT_OF_BOUNDS_Y: i64 = -50000;

/// Half extents of the player's collider.
pub const PLAYER_HALF_WIDTH: i64 = 500;

pub const PLAYER_HALF_HEIGHT: i64 = 750;

/// The solver's simulation.
pub struct GameSolver {
    pub state: SolverState,
    pub dispatcher_state: DispatcherState,
    pub player: Player,
    pub geometry: LevelGeometry,
    pub items: Vec<SolverItem>,
    /// The item the player carries.
    pub picked_up_item: Option<SolverItem>,
    /// Where a fish met a cinder block, and the milliseconds since.
    pub explosion: Option<(Vec2, i64)>,
}

/// Whether every level of `levels` is well formed.
pub open spec fn levels_wf(levels: Seq<SolverLevel>) -> bool {
    forall|i: int| 0 <= i < levels.len() ==> (#[trigger] levels[i]).wf()
}

/// The player put back at the spawn point of `level`, standing still, its
/// bottom edge on the spawn point.
pub open spec fn respawned(p: Player, level: SolverLevel) -> Player {
    Player {
        collider: Collider {
            position: Vec2 {
                x: level.spawnpoint.x,
                y: add_spec(level.spawnpoint.y as int, p.collider.half_height as int) as i64,
            },
            ..p.collider
        },
        velocity: Vec2 { x: 0, y: 0 },
        ..p
    }
}

/// The player as it enters the game: at rest at the origin, in the air.
pub open spec fn fresh_player() -> Player {
    Player {
        collider: Collider {
            position: Vec2 { x: PLAYER_HALF_WIDTH, y: PLAYER_HALF_HEIGHT },
            half_width: PLAYER_HALF_WIDTH,
            half_height: PLAYER_HALF_HEIGHT,
        },
        velocity: Vec2 { x: 0, y: 0 },
        state: PlayerState::Airborn,
        control_timeout: None,
        facing_left: false,
        can_hold_jump: false,
        coyote_time: None,
        jump_buffer: None,
        animation_time: 0,
    }
}

impl GameSolver {
    pub open spec fn wf(&self) -> bool {
        &&& self.player.wf()
        &&& self.geometry.wf()
        &&& forall|i: int| 0 <= i < self.items@.len() ==> (#[trigger] self.items@[i]).wf()
        &&& self.picked_up_item matches Some(it) ==> it.wf()
        &&& self.explosion matches Some((pos, t)) ==> pos.wf() && 0 <= t <= LIMIT
    }

    /// Whether the simulation stands in level `level`, of index `index`, as it
    /// was just loaded.
    pub open spec fn loaded(&self, player: Player, level: SolverLevel, index: usize) -> bool {
        &&& self.player == respawned(player, level)
        &&& self.geometry.statics@ == crate::level::level_walls()
        &&& self.geometry.tilted@ == crate::level::level_hazards(index)
        &&& self.geometry.door_entrance == crate::level::entrance_door()
        &&& self.geometry.door_exit == crate::level::exit_door()
        &&& self.geometry.platforms@.len() == level.platforms@.len()
        &&& forall|i: int|
            0 <= i < level.platforms@.len() ==> self.geometry.platforms@[i]
                == (#[trigger] level.platforms@[i]).collider_spec()
        &&& self.items@ == level.items@
        &&& self.picked_up_item is None
    }

    /// Puts the player at the spawn point of the current level, if there is one.
    pub fn player_respawn(&mut self, levels: &Vec<SolverLevel>)
        requires
            old(self).wf(),
            levels_wf(levels@),
        ensures
            final(self).wf(),
            final(self).state == old(self).state,
            final(self).dispatcher_state == old(self).dispatcher_state,
            final(self).geometry == old(self).geometry,
            final(self).items == old(self).items,
            final(self).picked_up_item == old(self).picked_up_item,
            final(self).explosion == old(self).explosion,
            old(self).state.current_level < levels@.len() ==> final(self).player == respawned(
                old(self).player,
                levels@[old(self).state.current_level as int],
            ),
            old(self).state.current_level >= levels@.len() ==> final(self).player == old(
                self,
            ).player,
    {
        if self.state.current_level < levels.len() {
            let level = &levels[self.state.current_level];
            assert(level.wf());
            let pos = Vec2::new(
                level.spawnpoint.x,
                fx_add(level.spawnpoint.y, self.player.collider.half_height),
            );
            self.player.collider = Collider { position: pos, ..self.player.collider };
            self.player.velocity = Vec2::new(0, 0);
        }
    }

    /// Loads the current level: the player respawns, the geometry is rebuilt and
    /// the items are reset. Without such a level, the level is left empty.
    pub fn reload_level(&mut self, levels: &Vec<SolverLevel>)
        requires
            old(self).wf(),
            levels_wf(levels@),
        ensures
            final(self).wf(),
            final(self).state == old(self).state,
            final(self).dispatcher_state == old(self).dispatcher_state,
            final(self).explosion == old(self).explosion,
            old(self).state.current_level < levels@.len() ==> final(self).loaded(
                old(self).player,
                levels@[old(self).state.current_level as int],
                old(self).state.current_level,
            ),
            old(self).state.current_level >= levels@.len() ==> {
                &&& final(self).player == old(self).player
                &&& final(self).geometry.statics@.len() == 0
                &&& final(self).geometry.tilted@.len() == 0
                &&& final(self).geometry.door_entrance == old(self).geometry.door_entrance
                &&& final(self).geometry.door_exit == old(self).geometry.door_exit
                &&& final(self).geometry.platforms == old(self).geometry.platforms
                &&& final(self).items == old(self).items
                &&& final(self).picked_up_item == old(self).picked_up_item
            },
    {
        self.player_respawn(levels);
        if self.state.current_level < levels.len() {
            let level = &levels[self.state.current_level];
            assert(level.wf());
            self.geometry = LevelGeometry::build(level, self.state.current_level);
            let mut items: Vec<SolverItem> = Vec::new();
            let mut i: usize = 0;
            while i < level.items.len()
                invariant
                    level.wf(),
                    i <= level.items@.len(),
                    items@ == level.items@.take(i as int),
                decreases level.items@.len() - i,
            {
                items.push(level.items[i]);
                assert(items@ =~= level.items@.take(i + 1));
                i = i + 1;
            }
            assert(level.items@.take(level.items@.len() as int) == level.items@);
            self.items = items;
            self.picked_up_item = None;
        } else {
            self.geometry.statics = Vec::new();
            self.geometry.tilted = Vec::new();
        }
    }

    /// Starts the simulation in level `start`, which counts as reached.
    pub fn new(levels: &Vec<SolverLevel>, start: usize) -> (r: Self)
        requires
            levels_wf(levels@),
        ensures
            r.wf(),
            r.state == (SolverState { current_level: start, levels_completed: start, ..SolverState::initial() }),
            r.dispatcher_state == DispatcherState::initial(),
            r.explosion is None,
            start < levels@.len() ==> r.loaded(fresh_player(), levels@[start as int], start),
    {
        let player = Player {
            collider: Collider::rect(
                Vec2::new(PLAYER_HALF_WIDTH, PLAYER_HALF_HEIGHT),
                PLAYER_HALF_WIDTH,
                PLAYER_HALF_HEIGHT,
            ),
            velocity: Vec2::new(0, 0),
            state: PlayerState::Airborn,
            control_timeout: None,
            facing_left: false,
            can_hold_jump: false,
            coyote_time: None,
            jump_buffer: None,
            animation_time: 0,
        };
        let door = Collider::rect(Vec2::new(0, 0), 0, 0);
        let mut state = SolverState::new();
        state.current_level = start;
        state.levels_completed = start;
        let mut sim = GameSolver {
            state,
            dispatcher_state: DispatcherState::new(),
            player,
            geometry: LevelGeometry {
                statics: Vec::new(),
                tilted: Vec::new(),
                door_entrance: door,
                door_exit: door,
                platforms: Vec::new(),
            },
            items: Vec::new(),
            picked_up_item: None,
            explosion: None,
        };
        sim.reload_level(levels);
        sim
    }
}

/// The simulation after the player stepped to `p` with the items `items`:
/// touching the transition region while the exit is open advances to the next
/// level, which is loaded, and a player below the floor threshold respawns.
pub open spec fn settled(
    old: GameSolver,
    new: GameSolver,
    levels: Seq<SolverLevel>,
    p: Player,
    items: Seq<SolverItem>,
    held: Option<SolverItem>,
    advanced: bool,
) -> bool {
    let lvl = old.state.current_level as int;
    let advance = lvl < levels.len() && old.state.exit_open() && p.collider.overlaps(
        &levels[lvl].transition,
    );
    &&& advanced == advance
    &&& new.dispatcher_state == old.dispatcher_state
    &&& if advance {
        &&& new.state == SolverState { current_level: (lvl + 1) as usize, ..old.state }
        &&& lvl + 1 < levels.len() ==> new.loaded(p, levels[lvl + 1], (lvl + 1) as usize)
        &&& lvl + 1 >= levels.len() ==> new.player == p && new.geometry.statics@.len() == 0
            && new.geometry.tilted@.len() == 0
    } else {
        &&& new.state == old.state
        &&& new.geometry == old.geometry
        &&& new.items@ == items
        &&& new.picked_up_item == held
        &&& new.player == if p.collider.position.y < OUT_OF_BOUNDS_Y && lvl < levels.len() {
            respawned(p, levels[lvl])
        } else {
            p
        }
    }
}

/// What a tick of `dt` milliseconds does to the explosion clock.
pub open spec fn explosion_post(old: GameSolver, new: GameSolver, dt: int, ret: ExplosionOutcome) -> bool {
    &&& new.player == old.player
    &&& new.items == old.items
    &&& new.picked_up_item == old.picked_up_item
    &&& new.geometry == old.geometry
    &&& new.dispatcher_state == old.dispatcher_state
    &&& match old.explosion {
        None => ret == (ExplosionOutcome { caught: false, sync_solver: false })
            && new.explosion == old.explosion && new.state == old.state,
        Some((pos, t)) => if t + dt <= EXPLOSION_DELAY {
            &&& new.explosion == Some((pos, (t + dt) as i64))
            &&& new.state == old.state
            &&& ret == (ExplosionOutcome { caught: false, sync_solver: false })
        } else {
            let solves = old.state.current_level == 1 && !old.state.exit_open();
            &&& new.explosion is None
            &&& ret.caught == within_blast(old.player, pos)
            &&& ret.sync_solver == solves
            &&& new.state == if solves {
                SolverState {
                    levels_completed: (old.state.levels_completed + 1) as usize,
                    ..old.state
                }
            } else {
                old.state
            }
        },
    }
}

/// What looking for an exploding pair does.
pub open spec fn detect_post(old: GameSolver, new: GameSolver, ret: bool) -> bool {
    &&& new.state == old.state
    &&& new.player == old.player
    &&& new.geometry == old.geometry
    &&& new.picked_up_item == old.picked_up_item
    &&& ret == exists|i: int, j: int| explosive(old.items@, i, j)
    &&& !ret ==> new.items == old.items && new.explosion == old.explosion
    &&& forall|i: int, j: int|
        #[trigger] first_explosive(old.items@, i, j) ==> {
            &&& new.items@ == old.items@.remove(j).remove(i)
            &&& new.explosion == Some((old.items@[i].collider.position, 0i64))
        }
}

/// What a tick of `dt` milliseconds does to the items.
pub open spec fn items_post(old: GameSolver, new: GameSolver, dt: int) -> bool {
    &&& new.state == old.state
    &&& new.player == old.player
    &&& new.geometry == old.geometry
    &&& new.picked_up_item == old.picked_up_item
    &&& new.explosion == old.explosion
    &&& new.dispatcher_state == old.dispatcher_state
    &&& new.items@.len() == old.items@.len()
    &&& forall|i: int|
        0 <= i < old.items@.len() ==> item_moved(
            #[trigger] old.items@[i],
            new.items@[i],
            old.geometry.statics@ + old.geometry.platforms@,
            dt,
        )
}

/// What a tick of the player, the level transition and the fall-out check does.
pub open spec fn update_post(
    old: GameSolver,
    new: GameSolver,
    levels: Seq<SolverLevel>,
    rules: SolverRules,
    control: PlayerControl,
    dt: int,
    ret: bool,
) -> bool {
    let stepped_now = stepped(
        old.player,
        rules,
        control,
        old.geometry,
        old.state.exit_open(),
        old.items@,
        old.picked_up_item,
        dt,
    );
    &&& new.explosion == old.explosion
    &&& settled(old, new, levels, stepped_now.0, stepped_now.1, stepped_now.2, ret)
}

impl GameSolver {
    /// One frame of the solver's simulation. Returns whether the shared progress
    /// changed (the level advanced), so that it is to be relayed.
    pub fn update(
        &mut self,
        levels: &Vec<SolverLevel>,
        rules: &SolverRules,
        control: &PlayerControl,
        dt: i64,
    ) -> (advanced: bool)
        requires
            old(self).wf(),
            levels_wf(levels@),
            rules.wf(),
            control.wf(),
            0 <= dt <= LIMIT,
        ensures
            final(self).wf(),
            update_post(*old(self), *final(self), levels@, *rules, *control, dt as int, advanced),

    {
        let exit_open = self.state.is_exit_open();
        self.player.update(rules, control, &self.geometry, exit_open, &mut self.items, &mut self.picked_up_item, dt);
        let ghost p = self.player;
        let mut advanced = false;
        if self.state.current_level < levels.len() {
            let lvl = self.state.current_level;
            assert(levels@[lvl as int].wf());
            if exit_open && self.player.collider.check(&levels[lvl].transition) {
                self.state.current_level = lvl + 1;
                advanced = true;
                self.reload_level(levels);
            }
        }
        if self.player.collider.position.y < OUT_OF_BOUNDS_Y {
            self.player_respawn(levels);
        }
        advanced
    }

    /// Takes in what the other peer relayed: its own half of the progress, or a
    /// replacement of the solver's half.
    pub fn handle_message(&mut self, message: &ServerMessage)
        ensures
            final(self).player == old(self).player,
            final(self).geometry == old(self).geometry,
            final(self).items == old(self).items,
            final(self).picked_up_item == old(self).picked_up_item,
            final(self).explosion == old(self).explosion,
            match *message {
                ServerMessage::SyncDispatcherState(d) => final(self).dispatcher_state == d
                    && final(self).state == old(self).state,
                ServerMessage::SyncSolverState(st) => final(self).state == st
                    && final(self).dispatcher_state == old(self).dispatcher_state,
                _ => final(self).state == old(self).state && final(self).dispatcher_state == old(
                    self,
                ).dispatcher_state,
            },
    {
        match message {
            ServerMessage::SyncDispatcherState(d) => {
                self.dispatcher_state = *d;
            },
            ServerMessage::SyncSolverState(st) => {
                self.state = *st;
            },
            _ => {},
        }
    }
}

/// Speed at which an unsupported item falls, in steps per second.
pub const ITEM_FALL_SPEED: i64 = 5000;

/// Whether `c` is a deepest collision of `probe` among `others`: the largest
/// penetration, with the normal of a collider that reaches it.
pub open spec fn is_deepest(probe: Collider, others: Seq<Collider>, c: Collision) -> bool {
    &&& exists|i: int|
        0 <= i < others.len() && probe.overlaps(&others[i]) && #[trigger] probe.is_collision_with(
            &others[i],
            c,
        )
    &&& forall|j: int|
        0 <= j < others.len() && probe.overlaps(&#[trigger] others[j]) ==> probe.penetration(
            &others[j],
        ) <= c.penetration
}

/// What one tick does to an item: one with gravity either rests on the deepest
/// support it sinks into, moved out of it, or falls freely.
pub open spec fn item_moved(
    old: SolverItem,
    new: SolverItem,
    supports: Seq<Collider>,
    dt: int,
) -> bool {
    if !old.has_gravity {
        new == old
    } else if forall|i: int| 0 <= i < supports.len() ==> !old.collider.overlaps(&supports[i]) {
        new == SolverItem {
            collider: Collider {
                position: Vec2 {
                    x: old.collider.position.x,
                    y: add_spec(
                        old.collider.position.y as int,
                        mul_spec(-ITEM_FALL_SPEED as int, dt),
                    ) as i64,
                },
                ..old.collider
            },
            ..old
        }
    } else {
        exists|c: Collision|
            #[trigger] is_deepest(old.collider, supports, c) && new == SolverItem {
                collider: Collider {
                    position: Vec2 {
                        x: sub_spec(
                            old.collider.position.x as int,
                            c.normal.x * c.penetration,
                        ) as i64,
                        y: sub_spec(
                            old.collider.position.y as int,
                            c.normal.y * c.penetration,
                        ) as i64,
                    },
                    ..old.collider
                },
                ..old
            }
    }
}

/// An item with gravity that sinks into exactly one support comes to rest
/// moved out of it along the shortest push, and no longer overlaps it (where
/// the new position lies within the coordinate range).
pub proof fn lemma_item_rests_clear(
    old: SolverItem,
    new: SolverItem,
    supports: Seq<Collider>,
    dt: int,
    k: int,
)
    requires
        old.wf(),
        forall|i: int| 0 <= i < supports.len() ==> (#[trigger] supports[i]).wf(),
        old.has_gravity,
        0 <= k < supports.len(),
        old.collider.overlaps(&supports[k]),
        forall|i: int|
            0 <= i < supports.len() && i != k ==> !old.collider.overlaps(&supports[i]),
        item_moved(old, new, supports, dt),
        in_range(
            old.collider.position.x - old.collider.normal_x(&supports[k])
                * old.collider.penetration(&supports[k]),
        ),
        in_range(
            old.collider.position.y - old.collider.normal_y(&supports[k])
                * old.collider.penetration(&supports[k]),
        ),
    ensures
        new.collider.position.x == old.collider.position.x - old.collider.normal_x(&supports[k])
            * old.collider.penetration(&supports[k]),
        new.collider.position.y == old.collider.position.y - old.collider.normal_y(&supports[k])
            * old.collider.penetration(&supports[k]),
        !new.collider.overlaps(&supports[k]),
{
    let a = old.collider;
    let b = supports[k];
    assert(!(forall|i: int| 0 <= i < supports.len() ==> !a.overlaps(&supports[i])));
    let c = choose|c: Collision| #[trigger] is_deepest(a, supports, c) && new == SolverItem {
        collider: Collider {
            position: Vec2 {
                x: sub_spec(a.position.x as int, c.normal.x * c.penetration) as i64,
                y: sub_spec(a.position.y as int, c.normal.y * c.penetration) as i64,
            },
            ..a
        },
        ..old
    };
    let i = choose|i: int|
        0 <= i < supports.len() && a.overlaps(&supports[i]) && #[trigger] a.is_collision_with(
            &supports[i],
            c,
        );
    assert(i == k);
    lemma_resolution_separates(a, b);
}

impl GameSolver {
    /// Lets the items with gravity fall onto the level's floors and platforms.
    pub fn update_items(&mut self, dt: i64)
        requires
            old(self).wf(),
            0 <= dt <= LIMIT,
        ensures
            final(self).wf(),
            items_post(*old(self), *final(self), dt as int),

    {
        let mut supports: Vec<Collider> = Vec::new();
        let mut k: usize = 0;
        while k < self.geometry.statics.len()
            invariant
                self.geometry == old(self).geometry,
                self.geometry.wf(),
                k <= self.geometry.statics@.len(),
                supports@ == self.geometry.statics@.take(k as int),
            decreases self.geometry.statics@.len() - k,
        {
            supports.push(self.geometry.statics[k]);
            assert(supports@ =~= self.geometry.statics@.take(k + 1));
            k = k + 1;
        }
        let mut k: usize = 0;
        while k < self.geometry.platforms.len()
            invariant
                self.geometry == old(self).geometry,
                self.geometry.wf(),
                k <= self.geometry.platforms@.len(),
                supports@ == self.geometry.statics@ + self.geometry.platforms@.take(k as int),
            decreases self.geometry.platforms@.len() - k,
        {
            supports.push(self.geometry.platforms[k]);
            assert(supports@ =~= self.geometry.statics@ + self.geometry.platforms@.take(k + 1));
            k = k + 1;
        }
        assert(supports@ =~= self.geometry.statics@ + self.geometry.platforms@);
        assert(forall|i: int| 0 <= i < supports@.len() ==> (#[trigger] supports@[i]).wf()) by {
            assert forall|i: int| 0 <= i < supports@.len() implies (#[trigger] supports@[i]).wf() by {
                if i < self.geometry.statics@.len() {
                    assert(supports@[i] == self.geometry.statics@[i]);
                } else {
                    assert(supports@[i] == self.geometry.platforms@[i - self.geometry.statics@.len()]);
                }
            }
        }
        let mut i: usize = 0;
        while i < self.items.len()
            invariant
                self.state == old(self).state,
                self.player == old(self).player,
                self.geometry == old(self).geometry,
                self.picked_up_item == old(self).picked_up_item,
                self.picked_up_item matches Some(it) ==> it.wf(),
                self.explosion == old(self).explosion,
                self.explosion matches Some((pos, t)) ==> pos.wf() && 0 <= t <= LIMIT,
                self.dispatcher_state == old(self).dispatcher_state,
                self.player.wf(),
                self.geometry.wf(),
                0 <= dt <= LIMIT,
                supports@ == self.geometry.statics@ + self.geometry.platforms@,
                forall|m: int| 0 <= m < supports@.len() ==> (#[trigger] supports@[m]).wf(),
                i <= self.items@.len(),
                self.items@.len() == old(self).items@.len(),
                forall|m: int| 0 <= m < self.items@.len() ==> (#[trigger] self.items@[m]).wf(),
                forall|m: int| i <= m < self.items@.len() ==> self.items@[m] == old(self).items@[m],
                forall|m: int|
                    0 <= m < i ==> item_moved(
                        #[trigger] old(self).items@[m],
                        self.items@[m],
                        supports@,
                        dt as int,
                    ),
            decreases self.items@.len() - i,
        {
            let it = self.items[i];
            if it.has_gravity {
                let c = it.collider;
                let pos = match deepest_collision(&c, &supports) {
                    None => Vec2::new(c.position.x, fx_add(c.position.y, fx_mul(-ITEM_FALL_SPEED, dt))),
                    Some(col) => {
                        let ghost j = choose|j: int|
                            0 <= j < supports@.len() && c.overlaps(&supports@[j])
                                && #[trigger] c.is_collision_with(&supports@[j], col);
                        assert(c.overlaps(&supports@[j]));
                        let dx = if col.normal.x > 0 {
                            col.penetration
                        } else if col.normal.x < 0 {
                            -col.penetration
                        } else {
                            0
                        };
                        let dy = if col.normal.y > 0 {
                            col.penetration
                        } else if col.normal.y < 0 {
                            -col.penetration
                        } else {
                            0
                        };
                        assert(dx == col.normal.x * col.penetration) by (nonlinear_arith)
                            requires
                                -1 <= col.normal.x <= 1,
                                dx == (if col.normal.x > 0 { col.penetration as int } else if col.normal.x < 0 { -col.penetration } else { 0 }),
                        ;
                        assert(dy == col.normal.y * col.penetration) by (nonlinear_arith)
                            requires
                                -1 <= col.normal.y <= 1,
                                dy == (if col.normal.y > 0 { col.penetration as int } else if col.normal.y < 0 { -col.penetration } else { 0 }),
                        ;
                        let p = Vec2::new(fx_sub(c.position.x, dx), fx_sub(c.position.y, dy));
                        proof {
                            assert(is_deepest(c, supports@, col));
                            let moved = SolverItem { collider: Collider { position: p, ..c }, ..it };
                            assert(item_moved(it, moved, supports@, dt as int));
                        }
                        p
                    },
                };
                let moved = SolverItem { collider: Collider { position: pos, ..c }, ..it };
                assert(item_moved(it, moved, supports@, dt as int));
                self.items.set(i, moved);
            }
            i = i + 1;
        }
    }
}

/// How long an explosion takes to go off, in milliseconds.
pub const EXPLOSION_DELAY: i64 = 1000;

/// Distance from an explosion within which the player is caught by it.
pub const EXPLOSION_RADIUS: i64 = 1500;

/// Whether items `i` and `j` are a fish and a cinder block that touch.
pub open spec fn explosive(items: Seq<SolverItem>, i: int, j: int) -> bool {
    &&& 0 <= i < j < items.len()
    &&& ((items[i].kind is Fish && items[j].kind is CinderBlock) || (items[i].kind is CinderBlock
        && items[j].kind is Fish))
    &&& items[i].collider.overlaps(&items[j].collider)
}

/// Whether `(i, j)` is the first explosive pair, in the order of `i`, then `j`.
pub open spec fn first_explosive(items: Seq<SolverItem>, i: int, j: int) -> bool {
    &&& explosive(items, i, j)
    &&& forall|a: int, b: int| #[trigger] explosive(items, a, b) ==> i < a || (i == a && j <= b)
}

/// What an explosion that went off means for the game.
#[derive(Debug, Clone, Copy, PartialEq, Eq, Structural)]
pub struct ExplosionOutcome {
    /// The player stood too close: the game is lost.
    pub caught: bool,
    /// The explosion solved the level; the progress is to be relayed.
    pub sync_solver: bool,
}

/// Whether the player's centre lies within the explosion radius of `pos`.
pub open spec fn within_blast(p: Player, pos: Vec2) -> bool {
    let dx = p.collider.position.x - pos.x;
    let dy = p.collider.position.y - pos.y;
    dx * dx + dy * dy < EXPLOSION_RADIUS * EXPLOSION_RADIUS
}

impl GameSolver {
    /// A fish touching a cinder block explodes: the first such pair leaves the
    /// level and an explosion starts where the first of the two was. Returns
    /// whether that happened.
    pub fn detect_explosion(&mut self) -> (found: bool)
        requires
            old(self).wf(),
        ensures
            final(self).wf(),
            detect_post(*old(self), *final(self), found),

    {
        let n = self.items.len();
        let mut i: usize = 0;
        while i < n
            invariant
                n == self.items@.len(),
                *self == *old(self),
                self.wf(),
                i <= n,
                forall|a: int, b: int| explosive(self.items@, a, b) ==> a >= i,
            decreases n - i,
        {
            let mut j: usize = i + 1;
            while j < n
                invariant
                    n == self.items@.len(),
                    *self == *old(self),
                    self.wf(),
                    i < n,
                    i + 1 <= j <= n,
                    forall|a: int, b: int| explosive(self.items@, a, b) ==> a >= i,
                    forall|b: int| i < b < j ==> !explosive(self.items@, i as int, b),
                decreases n - j,
            {
                let a = self.items[i];
                let b = self.items[j];
                assert(self.items@[i as int].wf() && self.items@[j as int].wf());
                let pair = match (a.kind, b.kind) {
                    (SolverItemKind::Fish, SolverItemKind::CinderBlock) => true,
                    (SolverItemKind::CinderBlock, SolverItemKind::Fish) => true,
                    _ => false,
                };
                if pair && a.collider.check(&b.collider) {
                    assert(explosive(self.items@, i as int, j as int));
                    assert(forall|x: int, y: int|
                        #[trigger] explosive(self.items@, x, y) ==> i < x || (i == x && j <= y));
                    let ghost before = self.items@;
                    self.items.remove(j);
                    self.items.remove(i);
                    self.explosion = Some((a.collider.position, 0));
                    proof {
                        assert(forall|x: int, y: int|
                            #[trigger] first_explosive(before, x, y) ==> x == i && y == j);
                        assert(forall|m: int|
                            0 <= m < self.items@.len() ==> #[trigger] self.items@[m]
                                == before.remove(j as int).remove(i as int)[m]);
                    }
                    return true;
                }
                j = j + 1;
            }
            i = i + 1;
        }
        false
    }

    /// Runs the explosion clock by `dt` milliseconds. When it goes off, the
    /// player is caught if standing within the blast; otherwise the blast
    /// completes the level it happened in when that is the second level (index 1)
    /// and its exit is still closed.
    pub fn update_explosion(&mut self, dt: i64) -> (r: ExplosionOutcome)
        requires
            old(self).wf(),
            0 <= dt <= LIMIT,
        ensures
            final(self).wf(),
            explosion_post(*old(self), *final(self), dt as int, r),

    {
        let (pos, t) = match self.explosion {
            None => {
                return ExplosionOutcome { caught: false, sync_solver: false };
            },
            Some(e) => e,
        };
        let t2 = t + dt;
        if t2 <= EXPLOSION_DELAY {
            self.explosion = Some((pos, t2));
            return ExplosionOutcome { caught: false, sync_solver: false };
        }
        let dx = self.player.collider.position.x as i128 - pos.x as i128;
        let dy = self.player.collider.position.y as i128 - pos.y as i128;
        assert(-2_000_000_000 <= dx <= 2_000_000_000);
        assert(-2_000_000_000 <= dy <= 2_000_000_000);
        assert(0 <= dx * dx <= 4_000_000_000_000_000_000) by (nonlinear_arith)
            requires
                -2_000_000_000 <= dx <= 2_000_000_000,
        ;
        assert(0 <= dy * dy <= 4_000_000_000_000_000_000) by (nonlinear_arith)
            requires
                -2_000_000_000 <= dy <= 2_000_000_000,
        ;
        let radius: i128 = EXPLOSION_RADIUS as i128;
        assert(radius * radius == EXPLOSION_RADIUS * EXPLOSION_RADIUS) by (nonlinear_arith)
            requires
                radius == EXPLOSION_RADIUS,
        ;
        let caught = dx * dx + dy * dy < radius * radius;
        self.explosion = None;
        let solves = self.state.current_level == 1 && !self.state.is_exit_open();
        if solves {
            self.state.levels_completed = self.state.levels_completed + 1;
        }
        ExplosionOutcome { caught, sync_solver: solves }
    }
}

/// What a frame asks of the caller.
#[derive(Debug, Clone, Copy, PartialEq, Eq, Structural)]
pub struct FrameOutcome {
    /// The shared progress changed and is to be relayed.
    pub sync_solver: bool,
    /// The player stood in an explosion: the game is lost.
    pub caught: bool,
}

/// A whole frame in its fixed order: the explosion clock, the player with the
/// level transition and the fall-out check, the items, and then a new explosion
/// where a fish meets a cinder block.
pub open spec fn frame_post(
    old: GameSolver,
    new: GameSolver,
    levels: Seq<SolverLevel>,
    rules: SolverRules,
    control: PlayerControl,
    dt: int,
    ret: FrameOutcome,
) -> bool {
    exists|
        after_clock: GameSolver,
        after_player: GameSolver,
        after_items: GameSolver,
        blast: ExplosionOutcome,
        advanced: bool,
        found: bool,
    |
        {
            &&& explosion_post(old, after_clock, dt, blast)
            &&& update_post(after_clock, after_player, levels, rules, control, dt, advanced)
            &&& items_post(after_player, after_items, dt)
            &&& detect_post(after_items, new, found)
            &&& ret == (FrameOutcome {
                sync_solver: blast.sync_solver || advanced,
                caught: blast.caught,
            })
        }
}

impl GameSolver {
    /// One frame of the solver's game.
    pub fn frame(
        &mut self,
        levels: &Vec<SolverLevel>,
        rules: &SolverRules,
        control: &PlayerControl,
        dt: i64,
    ) -> (r: FrameOutcome)
        requires
            old(self).wf(),
            levels_wf(levels@),
            rules.wf(),
            control.wf(),
            0 <= dt <= LIMIT,
        ensures
            final(self).wf(),
            frame_post(*old(self), *final(self), levels@, *rules, *control, dt as int, r),
    {
        let blast = self.update_explosion(dt);
        let ghost after_clock = *self;
        let advanced = self.update(levels, rules, control, dt);
        let ghost after_player = *self;
        self.update_items(dt);
        let ghost after_items = *self;
        let found = self.detect_explosion();
        let r = FrameOutcome { sync_solver: blast.sync_solver || advanced, caught: blast.caught };
        assert(detect_post(after_items, *self, found));
        r
    }
}

} // verus!

//! Level data and the immovable geometry built from it.
use vstd::prelude::*;

use crate::collider::{Collider, Vec2};
use crate::fixed::LIMIT;
use crate::tilted::TiltedBox;

verus! {

/// Width of a level in coordinate steps.
pub const LEVEL_WIDTH: i64 = 16000;

/// Height of a level in coordinate steps.
pub const LEVEL_HEIGHT: i64 = 9000;

/// Thickness of the floor, walls and ceiling.
pub const WALL_THICKNESS: i64 = 1000;

/// Height of the door openings in the side walls.
pub const DOOR_HEIGHT: i64 = 2000;

/// Thickness of a door.
pub const DOOR_WIDTH: i64 = 300;

/// Index of the level with the bubble-tea container.
pub const BUBBLE_LEVEL: usize = 3;

/// Direction of a 15-degree turn: the triple 1419, 380, 1469.
pub const TILT_COS: i64 = 1419;

pub const TILT_SIN: i64 = 380;

pub const TILT_LEN: i64 = 1469;

/// Half the thickness of a tilted wall.
pub const TILTED_WALL_HALF_WIDTH: i64 = 35;

/// Largest magnitude of a coordinate in level data.
pub const LEVEL_COORD_LIMIT: i64 = 100_000_000;

/// The kinds of item lying around a level.
#[derive(Debug, Clone, Copy, PartialEq, Eq, Structural)]
pub enum SolverItemKind {
    Fish,
    CinderBlock,
}

/// An item of a level.
#[derive(Debug, Clone, Copy)]
pub struct SolverItem {
    pub kind: SolverItemKind,
    pub pushable: bool,
    pub can_pickup: bool,
    pub has_gravity: bool,
    pub collider: Collider,
}

impl SolverItem {
    pub open spec fn wf(&self) -> bool {
        self.collider.wf()
    }
}

/// A one-way platform: `pos` is the middle of its top edge; it reaches `width`
/// to each side and `height` down.
#[derive(Debug, Clone, Copy)]
pub struct Platform {
    pub pos: Vec2,
    pub width: i64,
    pub height: i64,
}

impl Platform {
    pub open spec fn wf(&self) -> bool {
        &&& -LEVEL_COORD_LIMIT <= self.pos.x <= LEVEL_COORD_LIMIT
        &&& -LEVEL_COORD_LIMIT <= self.pos.y <= LEVEL_COORD_LIMIT
        &&& 0 <= self.width <= LEVEL_COORD_LIMIT
        &&& 0 <= self.height <= LEVEL_COORD_LIMIT
    }

    /// The platform's collider: centred below `pos` by half its height.
    pub open spec fn collider_spec(&self) -> Collider {
        Collider {
            position: Vec2 { x: self.pos.x, y: (self.pos.y - self.height / 2) as i64 },
            half_width: self.width,
            half_height: (self.height / 2) as i64,
        }
    }

    pub fn collider(&self) -> (r: Collider)
        requires
            self.wf(),
        ensures
            r == self.collider_spec(),
            r.wf(),
    {
        let hh = self.height / 2;
        Collider::rect(Vec2::new(self.pos.x, self.pos.y - hh), self.width, hh)
    }
}

/// What a level holds: where the player appears, the region that leads to the
/// next level, its platforms and its items.
pub struct SolverLevel {
    pub door_entrance: bool,
    pub door_exit: bool,
    pub spawnpoint: Vec2,
    pub transition: Collider,
    pub platforms: Vec<Platform>,
    pub items: Vec<SolverItem>,
}

impl SolverLevel {
    pub open spec fn wf(&self) -> bool {
        &&& -LEVEL_COORD_LIMIT <= self.spawnpoint.x <= LEVEL_COORD_LIMIT
        &&& -LEVEL_COORD_LIMIT <= self.spawnpoint.y <= LEVEL_COORD_LIMIT
        &&& self.transition.wf()
        &&& forall|i: int| 0 <= i < self.platforms@.len() ==> (#[trigger] self.platforms@[i]).wf()
        &&& forall|i: int| 0 <= i < self.items@.len() ==> (#[trigger] self.items@[i]).wf()
    }
}

/// The immovable colliders of a level.
pub struct LevelGeometry {
    /// Floor, left wall, right wall and ceiling, in this order.
    pub statics: Vec<Collider>,
    /// The level's own tilted walls.
    pub tilted: Vec<TiltedBox>,
    pub door_entrance: Collider,
    pub door_exit: Collider,
    pub platforms: Vec<Collider>,
}

/// The floor, the two side walls (above the door openings) and the ceiling.
pub open spec fn level_walls() -> Seq<Collider> {
    seq![
        Collider {
            position: Vec2 { x: (LEVEL_WIDTH / 2) as i64, y: (WALL_THICKNESS / 2) as i64 },
            half_width: (LEVEL_WIDTH / 2) as i64,
            half_height: (WALL_THICKNESS / 2) as i64,
        },
        Collider {
            position: Vec2 {
                x: (WALL_THICKNESS / 2) as i64,
                y: (WALL_THICKNESS + DOOR_HEIGHT + LEVEL_HEIGHT / 2) as i64,
            },
            half_width: (WALL_THICKNESS / 2) as i64,
            half_height: (LEVEL_HEIGHT / 2) as i64,
        },
        Collider {
            position: Vec2 {
                x: (LEVEL_WIDTH - WALL_THICKNESS / 2) as i64,
                y: (WALL_THICKNESS + DOOR_HEIGHT + LEVEL_HEIGHT / 2) as i64,
            },
            half_width: (WALL_THICKNESS / 2) as i64,
            half_height: (LEVEL_HEIGHT / 2) as i64,
        },
        Collider {
            position: Vec2 { x: (LEVEL_WIDTH / 2) as i64, y: (LEVEL_HEIGHT - WALL_THICKNESS / 2) as i64 },
            half_width: (LEVEL_WIDTH / 2) as i64,
            half_height: (WALL_THICKNESS / 2) as i64,
        },
    ]
}

/// A wall of the bubble-tea container, turned 15 degrees left (`left`) or right.
pub open spec fn tilted_wall(x: int, y: int, half_height: int, left: bool) -> TiltedBox {
    TiltedBox {
        center: Vec2 { x: x as i64, y: y as i64 },
        half_width: TILTED_WALL_HALF_WIDTH,
        half_height: half_height as i64,
        axis: Vec2 {
            x: TILT_COS,
            y: if left {
                TILT_SIN
            } else {
                (-TILT_SIN) as i64
            },
        },
        axis_len: TILT_LEN,
    }
}

/// The level's own tilted walls: for the bubble level, the two sides of the
/// container and its door, in this order; none elsewhere.
pub open spec fn level_hazards(index: usize) -> Seq<TiltedBox> {
    if index == BUBBLE_LEVEL {
        seq![
            tilted_wall(5000, 4500, 4500, true),
            tilted_wall(11000, 5700, 2250, false),
            tilted_wall(10150, 1950, 1200, false),
        ]
    } else {
        Seq::empty()
    }
}

fn make_tilted_wall(x: i64, y: i64, half_height: i64, left: bool) -> (r: TiltedBox)
    requires
        0 <= x <= LIMIT,
        0 <= y <= LIMIT,
        0 <= half_height <= LIMIT,
    ensures
        r == tilted_wall(x as int, y as int, half_height as int, left),
        r.wf(),
{
    TiltedBox {
        center: Vec2 { x, y },
        half_width: TILTED_WALL_HALF_WIDTH,
        half_height,
        axis: Vec2 {
            x: TILT_COS,
            y: if left {
                TILT_SIN
            } else {
                -TILT_SIN
            },
        },
        axis_len: TILT_LEN,
    }
}

/// The entrance door, in the opening of the left wall.
pub open spec fn entrance_door() -> Collider {
    Collider {
        position: Vec2 { x: (DOOR_WIDTH / 2) as i64, y: (WALL_THICKNESS + DOOR_HEIGHT / 2) as i64 },
        half_width: (DOOR_WIDTH / 2) as i64,
        half_height: (DOOR_HEIGHT / 2) as i64,
    }
}

/// The exit door, in the opening of the right wall.
pub open spec fn exit_door() -> Collider {
    Collider {
        position: Vec2 { x: (LEVEL_WIDTH - DOOR_WIDTH / 2) as i64, y: (WALL_THICKNESS + DOOR_HEIGHT / 2) as i64 },
        half_width: (DOOR_WIDTH / 2) as i64,
        half_height: (DOOR_HEIGHT / 2) as i64,
    }
}

impl LevelGeometry {
    pub open spec fn wf(&self) -> bool {
        &&& forall|i: int| 0 <= i < self.statics@.len() ==> (#[trigger] self.statics@[i]).wf()
        &&& forall|i: int| 0 <= i < self.tilted@.len() ==> (#[trigger] self.tilted@[i]).wf()
        &&& self.door_entrance.wf()
        &&& self.door_exit.wf()
        &&& forall|i: int| 0 <= i < self.platforms@.len() ==> (#[trigger] self.platforms@[i]).wf()
    }

    /// Builds the geometry of `level`, which has index `index`: walls, the
    /// level's own tilted walls, doors and one collider per platform.
    pub fn build(level: &SolverLevel, index: usize) -> (r: Self)
        requires
            level.wf(),
        ensures
            r.wf(),
            r.statics@ == level_walls(),
            r.tilted@ == level_hazards(index),
            r.door_entrance == entrance_door(),
            r.door_exit == exit_door(),
            r.platforms@.len() == level.platforms@.len(),
            forall|i: int|
                0 <= i < level.platforms@.len() ==> r.platforms@[i]
                    == (#[trigger] level.platforms@[i]).collider_spec(),
    {
        let mut statics: Vec<Collider> = Vec::new();
        statics.push(
            Collider::rect(
                Vec2::new(LEVEL_WIDTH / 2, WALL_THICKNESS / 2),
                LEVEL_WIDTH / 2,
                WALL_THICKNESS / 2,
            ),
        );
        statics.push(
            Collider::rect(
                Vec2::new(WALL_THICKNESS / 2, WALL_THICKNESS + DOOR_HEIGHT + LEVEL_HEIGHT / 2),
                WALL_THICKNESS / 2,
                LEVEL_HEIGHT / 2,
            ),
        );
        statics.push(
            Collider::rect(
                Vec2::new(
                    LEVEL_WIDTH - WALL_THICKNESS / 2,
                    WALL_THICKNESS + DOOR_HEIGHT + LEVEL_HEIGHT / 2,
                ),
                WALL_THICKNESS / 2,
                LEVEL_HEIGHT / 2,
            ),
        );
        statics.push(
            Collider::rect(
                Vec2::new(LEVEL_WIDTH / 2, LEVEL_HEIGHT - WALL_THICKNESS / 2),
                LEVEL_WIDTH / 2,
                WALL_THICKNESS / 2,
            ),
        );
        assert(statics@ =~= level_walls());
        let door_entrance = Collider::rect(
            Vec2::new(DOOR_WIDTH / 2, WALL_THICKNESS + DOOR_HEIGHT / 2),
            DOOR_WIDTH / 2,
            DOOR_HEIGHT / 2,
        );
        let door_exit = Collider::rect(
            Vec2::new(LEVEL_WIDTH - DOOR_WIDTH / 2, WALL_THICKNESS + DOOR_HEIGHT / 2),
            DOOR_WIDTH / 2,
            DOOR_HEIGHT / 2,
        );
        let mut tilted: Vec<TiltedBox> = Vec::new();
        if index == BUBBLE_LEVEL {
            tilted.push(make_tilted_wall(5000, 4500, 4500, true));
            tilted.push(make_tilted_wall(11000, 5700, 2250, false));
            tilted.push(make_tilted_wall(10150, 1950, 1200, false));
        }
        assert(tilted@ =~= level_hazards(index));
        let mut platforms: Vec<Collider> = Vec::new();
        let mut i: usize = 0;
        while i < level.platforms.len()
            invariant
                level.wf(),
                i <= level.platforms@.len(),
                platforms@.len() == i,
                forall|k: int|
                    0 <= k < i ==> platforms@[k] == (#[trigger] level.platforms@[k]).collider_spec(),
                forall|k: int| 0 <= k < i ==> (#[trigger] platforms@[k]).wf(),
            decreases level.platforms@.len() - i,
        {
            let c = level.platforms[i].collider();
            platforms.push(c);
            i = i + 1;
        }
        LevelGeometry { statics, tilted, door_entrance, door_exit, platforms }
    }
}

} // verus!

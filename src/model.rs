use vstd::prelude::*;

use crate::collider::{Collider, Vec2};
use crate::fixed::in_range;

verus! {

/// Whether the player stands on something this tick.
#[derive(Debug, Clone, Copy, PartialEq, Eq, Structural)]
pub enum PlayerState {
    Grounded,
    Airborn,
}

/// Which animation the player sprite shows.
#[derive(Debug, Clone, Copy, PartialEq, Eq, Structural)]
pub enum PlayerAnimationState {
    Idle,
    Running,
    Jumping,
}

/// The solver's actor. Lengths are fixed-point coordinates, velocities are in
/// coordinate steps per second and timers in milliseconds.
#[derive(Debug, Clone, Copy)]
pub struct Player {
    pub collider: Collider,
    pub velocity: Vec2,
    pub state: PlayerState,
    pub control_timeout: Option<i64>,
    pub facing_left: bool,
    pub can_hold_jump: bool,
    pub coyote_time: Option<i64>,
    pub jump_buffer: Option<i64>,
    pub animation_time: i64,
}

/// A timer that is either inactive or within the representable range.
pub open spec fn timer_wf(t: Option<i64>) -> bool {
    match t {
        Some(v) => in_range(v as int),
        None => true,
    }
}

impl Player {
    pub open spec fn wf(&self) -> bool {
        &&& self.collider.wf()
        &&& self.velocity.wf()
        &&& timer_wf(self.control_timeout)
        &&& timer_wf(self.coyote_time)
        &&& timer_wf(self.jump_buffer)
        &&& in_range(self.animation_time as int)
    }
}

/// Which half of the game a participant plays.
#[derive(Debug, Clone, Copy, PartialEq, Eq, Structural)]
pub enum GameRole {
    Dispatcher,
    Solver,
}

/// Puzzle progress owned by the dispatcher peer.
#[derive(Debug, Clone, Copy, PartialEq, Eq, Structural)]
pub struct DispatcherState {
    pub button_station_open: bool,
    pub door_sign_open: bool,
    pub monitor_unlocked: bool,
}

/// Puzzle progress owned by the solver peer.
#[derive(Debug, Clone, Copy, PartialEq, Eq, Structural)]
pub struct SolverState {
    pub current_level: usize,
    pub levels_completed: usize,
    pub trashcan_evil: bool,
    pub solved_bubble_code: bool,
}

impl DispatcherState {
    /// The state at the start of a game: everything closed and locked.
    pub open spec fn initial() -> Self {
        DispatcherState { button_station_open: false, door_sign_open: false, monitor_unlocked: false }
    }

    pub fn new() -> (r: Self)
        ensures
            r == Self::initial(),
    {
        DispatcherState { button_station_open: false, door_sign_open: false, monitor_unlocked: false }
    }
}

impl SolverState {
    /// The state at the start of a game: first level, nothing completed.
    pub open spec fn initial() -> Self {
        SolverState {
            current_level: 0,
            levels_completed: 0,
            trashcan_evil: true,
            solved_bubble_code: false,
        }
    }

    pub fn new() -> (r: Self)
        ensures
            r == Self::initial(),
    {
        SolverState {
            current_level: 0,
            levels_completed: 0,
            trashcan_evil: true,
            solved_bubble_code: false,
        }
    }

    /// The exit of the current level is open once that level has been completed.
    pub open spec fn exit_open(&self) -> bool {
        self.current_level < self.levels_completed
    }

    pub fn is_exit_open(&self) -> (r: bool)
        ensures
            r == self.exit_open(),
    {
        self.current_level < self.levels_completed
    }
}

} // verus!

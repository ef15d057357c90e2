//! The dispatcher's side of the game: the room it looks around and the
//! monitor it unlocks.
use vstd::prelude::*;

use crate::fixed::{add_spec, fx_add, in_range, LIMIT};
use crate::interop::ServerMessage;
use crate::model::{DispatcherState, Player, SolverState};

verus! {

/// The wall of the room the dispatcher faces.
#[derive(Debug, Clone, Copy, PartialEq, Eq, Hash, Structural)]
pub enum DispatcherViewSide {
    Front,
    Left,
    Right,
    Back,
}

impl DispatcherViewSide {
    /// Turning left: front, left, back, right, front.
    pub open spec fn left_of(self) -> Self {
        match self {
            DispatcherViewSide::Front => DispatcherViewSide::Left,
            DispatcherViewSide::Left => DispatcherViewSide::Back,
            DispatcherViewSide::Back => DispatcherViewSide::Right,
            DispatcherViewSide::Right => DispatcherViewSide::Front,
        }
    }

    /// Turning right: the opposite way round.
    pub open spec fn right_of(self) -> Self {
        match self {
            DispatcherViewSide::Front => DispatcherViewSide::Right,
            DispatcherViewSide::Left => DispatcherViewSide::Front,
            DispatcherViewSide::Back => DispatcherViewSide::Left,
            DispatcherViewSide::Right => DispatcherViewSide::Back,
        }
    }

    pub fn cycle_left(self) -> (r: Self)
        ensures
            r == self.left_of(),
    {
        match self {
            DispatcherViewSide::Front => DispatcherViewSide::Left,
            DispatcherViewSide::Left => DispatcherViewSide::Back,
            DispatcherViewSide::Back => DispatcherViewSide::Right,
            DispatcherViewSide::Right => DispatcherViewSide::Front,
        }
    }

    pub fn cycle_right(self) -> (r: Self)
        ensures
            r == self.right_of(),
    {
        match self {
            DispatcherViewSide::Front => DispatcherViewSide::Right,
            DispatcherViewSide::Left => DispatcherViewSide::Front,
            DispatcherViewSide::Back => DispatcherViewSide::Left,
            DispatcherViewSide::Right => DispatcherViewSide::Back,
        }
    }
}

/// Turning left and then right, or right and then left, faces the same wall again.
pub proof fn lemma_cycle_inverse(side: DispatcherViewSide)
    ensures
        side.left_of().right_of() == side,
        side.right_of().left_of() == side,
{
}

/// The things in the dispatcher's room.
#[derive(Debug, Clone, Copy, PartialEq, Eq, Hash, Structural)]
pub enum DispatcherItem {
    Door,
    DoorSign,
    Table,
    Monitor,
    RealMouse,
    Cactus,
    Book,
    TheSock,
    ButtonStation,
    Bfb,
    ButtonYellow,
    ButtonGreen,
    ButtonSalad,
    ButtonPink,
    ButtonBlue,
    ButtonWhite,
    ButtonPurple,
    ButtonOrange,
    ButtonCyan,
}

impl DispatcherItem {
    /// Everything but the door and the table reacts to a click.
    pub open spec fn interactable(self) -> bool {
        !(self is Door || self is Table)
    }

    pub fn is_interactable(&self) -> (r: bool)
        ensures
            r == self.interactable(),
    {
        match self {
            DispatcherItem::Door => false,
            DispatcherItem::DoorSign => true,
            DispatcherItem::Table => false,
            DispatcherItem::Monitor => true,
            DispatcherItem::RealMouse => true,
            DispatcherItem::Cactus => true,
            DispatcherItem::Book => true,
            DispatcherItem::TheSock => true,
            DispatcherItem::ButtonStation => true,
            DispatcherItem::Bfb
            | DispatcherItem::ButtonYellow
            | DispatcherItem::ButtonGreen
            | DispatcherItem::ButtonSalad
            | DispatcherItem::ButtonPink
            | DispatcherItem::ButtonBlue
            | DispatcherItem::ButtonWhite
            | DispatcherItem::ButtonPurple
            | DispatcherItem::ButtonOrange
            | DispatcherItem::ButtonCyan => true,
        }
    }
}

/// What the dispatcher looks at closely.
#[derive(Debug, Clone, Copy, PartialEq, Eq, Structural)]
pub enum Focus {
    Whole,
    Monitor,
    Book,
}

/// Number of digits of the monitor's login code.
pub const LOGIN_CODE_LEN: usize = 3;

/// The digits that unlock the monitor.
pub open spec fn unlock_code() -> Seq<usize> {
    seq![6usize, 6usize, 6usize]
}

/// The dispatcher's local view and the shared progress it mirrors.
pub struct GameDispatcher {
    pub active_side: DispatcherViewSide,
    pub focus: Focus,
    pub login_code: Vec<usize>,
    pub opened_file: Option<usize>,
    pub opened_meme: Option<usize>,
    pub state: DispatcherState,
    pub solver_state: SolverState,
    pub solver_player: Option<Player>,
    /// Milliseconds the big red button has been held, if it was pressed.
    pub bfb_pressed: Option<i64>,
    /// Coloured buttons pressed, each with the milliseconds since its press.
    pub buttons_pressed: Vec<(DispatcherItem, i64)>,
    /// Coloured buttons that took effect during the bubble puzzle.
    pub bubble_buttons: usize,
}

/// How long a button is held before it takes effect, in milliseconds.
pub const BUTTON_HOLD_TIME: i64 = 1000;

/// Number of coloured presses that solve the bubble puzzle.
pub const BUBBLE_PRESSES: usize = 5;

/// The traps a careless dispatcher can spring; each ends the game.
#[derive(Debug, Clone, Copy, PartialEq, Eq, Structural)]
pub enum Trap {
    BigRedButton,
    SaladButton,
}

/// What a frame of button handling asks of the caller.
#[derive(Debug, Clone, Copy, PartialEq, Eq, Structural)]
pub struct ButtonsOutcome {
    /// The solver's progress changed and is to be relayed.
    pub sync_solver: bool,
    /// A trap was sprung.
    pub trap: Option<Trap>,
}

/// Whether `item` is one of the coloured buttons of the button station.
pub open spec fn is_color_button(item: DispatcherItem) -> bool {
    item is ButtonYellow || item is ButtonGreen || item is ButtonSalad || item is ButtonPink
        || item is ButtonBlue || item is ButtonWhite || item is ButtonPurple || item is ButtonOrange
        || item is ButtonCyan
}

/// Whether some entry of `pressed` is for `item`.
pub open spec fn is_pressed(pressed: Seq<(DispatcherItem, i64)>, item: DispatcherItem) -> bool {
    exists|i: int| 0 <= i < pressed.len() && pressed[i].0 == item
}

/// The progress and puzzle state that button presses act on.
pub struct Effects {
    pub solver: SolverState,
    pub bubble_buttons: usize,
    pub sync_solver: bool,
    pub salad: bool,
}

/// The effect of one button taking effect.
pub open spec fn button_effect(e: Effects, item: DispatcherItem, monitor_unlocked: bool) -> Effects {
    let s = e.solver;
    let bubbles = if s.levels_completed == 3 && e.bubble_buttons < usize::MAX {
        (e.bubble_buttons + 1) as usize
    } else {
        e.bubble_buttons
    };
    let bubble_done = s.levels_completed == 3 && bubbles == BUBBLE_PRESSES && bubbles
        != e.bubble_buttons;
    let s1 = if bubble_done {
        SolverState { levels_completed: 4, ..s }
    } else {
        s
    };
    let e1 = Effects {
        solver: s1,
        bubble_buttons: bubbles,
        sync_solver: e.sync_solver || bubble_done,
        salad: e.salad,
    };
    match item {
        DispatcherItem::ButtonSalad => if monitor_unlocked && s1.levels_completed == 0 {
            Effects { salad: true, ..e1 }
        } else {
            e1
        },
        DispatcherItem::ButtonYellow => if monitor_unlocked && s1.levels_completed == 0 {
            Effects { solver: SolverState { levels_completed: 1, ..s1 }, sync_solver: true, ..e1 }
        } else {
            e1
        },
        DispatcherItem::ButtonGreen => if s1.trashcan_evil && s1.levels_completed == 2 {
            Effects { solver: SolverState { trashcan_evil: false, ..s1 }, sync_solver: true, ..e1 }
        } else {
            e1
        },
        DispatcherItem::ButtonCyan => if s1.levels_completed == 4 {
            Effects { solver: SolverState { levels_completed: 5, ..s1 }, sync_solver: true, ..e1 }
        } else {
            e1
        },
        _ => e1,
    }
}

/// The effects of the presses in `pressed` whose hold time reaches the limit
/// after `dt` more milliseconds, in order.
pub open spec fn buttons_fired(
    e: Effects,
    pressed: Seq<(DispatcherItem, i64)>,
    dt: int,
    monitor_unlocked: bool,
) -> Effects
    decreases pressed.len(),
{
    if pressed.len() == 0 {
        e
    } else {
        let prev = buttons_fired(e, pressed.drop_last(), dt, monitor_unlocked);
        if add_spec(pressed.last().1 as int, dt) >= BUTTON_HOLD_TIME {
            button_effect(prev, pressed.last().0, monitor_unlocked)
        } else {
            prev
        }
    }
}

/// The presses still held after `dt` more milliseconds, with their new times.
pub open spec fn buttons_kept(pressed: Seq<(DispatcherItem, i64)>, dt: int) -> Seq<
    (DispatcherItem, i64),
>
    decreases pressed.len(),
{
    if pressed.len() == 0 {
        pressed
    } else {
        let prev = buttons_kept(pressed.drop_last(), dt);
        let t = add_spec(pressed.last().1 as int, dt);
        if t < BUTTON_HOLD_TIME {
            prev.push((pressed.last().0, t as i64))
        } else {
            prev
        }
    }
}

impl GameDispatcher {
    pub open spec fn wf(&self) -> bool {
        &&& self.bfb_pressed matches Some(t) ==> in_range(t as int)
        &&& forall|i: int|
            0 <= i < self.buttons_pressed@.len() ==> in_range(
                (#[trigger] self.buttons_pressed@[i]).1 as int,
            )
    }

    /// A click on `item`; `inside_station` tells whether the click fell inside the
    /// open button station. Returns whether the dispatcher's progress changed and
    /// is to be relayed.
    pub fn click_item(&mut self, item: DispatcherItem, inside_station: bool) -> (relay: bool)
        requires
            old(self).wf(),
        ensures
            final(self).wf(),
            final(self).solver_state == old(self).solver_state,
            final(self).login_code == old(self).login_code,
            relay == (item is DoorSign || (item is ButtonStation && (
            !old(self).state.button_station_open || !inside_station))),
            item is DoorSign ==> final(self).state == (DispatcherState {
                door_sign_open: !old(self).state.door_sign_open,
                ..old(self).state
            }),
            relay && item is ButtonStation ==> final(self).state == (DispatcherState {
                button_station_open: !old(self).state.button_station_open,
                ..old(self).state
            }),
            !relay ==> final(self).state == old(self).state,
            final(self).focus == match item {
                DispatcherItem::Monitor => Focus::Monitor,
                DispatcherItem::Book => Focus::Book,
                _ => old(self).focus,
            },
            final(self).bfb_pressed == if item is Bfb && old(self).bfb_pressed is None {
                Some(0i64)
            } else {
                old(self).bfb_pressed
            },
            final(self).buttons_pressed@ == if is_color_button(item)
                && old(self).state.button_station_open && !is_pressed(
                old(self).buttons_pressed@,
                item,
            ) {
                old(self).buttons_pressed@.push((item, 0i64))
            } else {
                old(self).buttons_pressed@
            },
    {
        match item {
            DispatcherItem::DoorSign => {
                self.state.door_sign_open = !self.state.door_sign_open;
                true
            },
            DispatcherItem::Monitor => {
                self.change_focus(Focus::Monitor);
                false
            },
            DispatcherItem::ButtonStation => {
                if !self.state.button_station_open || !inside_station {
                    self.state.button_station_open = !self.state.button_station_open;
                    true
                } else {
                    false
                }
            },
            DispatcherItem::Bfb => {
                if self.bfb_pressed.is_none() {
                    self.bfb_pressed = Some(0);
                }
                false
            },
            DispatcherItem::ButtonYellow
            | DispatcherItem::ButtonGreen
            | DispatcherItem::ButtonSalad
            | DispatcherItem::ButtonPink
            | DispatcherItem::ButtonBlue
            | DispatcherItem::ButtonWhite
            | DispatcherItem::ButtonPurple
            | DispatcherItem::ButtonOrange
            | DispatcherItem::ButtonCyan => {
                if self.state.button_station_open {
                    let mut i: usize = 0;
                    let mut found = false;
                    while i < self.buttons_pressed.len()
                        invariant
                            i <= self.buttons_pressed@.len(),
                            self.buttons_pressed@ == old(self).buttons_pressed@,
                            found == exists|k: int| 0 <= k < i && self.buttons_pressed@[k].0 == item,
                        decreases self.buttons_pressed@.len() - i,
                    {
                        if self.buttons_pressed[i].0 == item {
                            found = true;
                        }
                        i = i + 1;
                    }
                    if !found {
                        self.buttons_pressed.push((item, 0));
                    }
                }
                false
            },
            DispatcherItem::Book => {
                self.change_focus(Focus::Book);
                false
            },
            _ => false,
        }
    }

    /// Advances the held buttons by `dt` milliseconds: each press that has been
    /// held long enough takes effect and is released.
    pub fn update_buttons(&mut self, dt: i64) -> (r: ButtonsOutcome)
        requires
            old(self).wf(),
            0 <= dt <= LIMIT,
        ensures
            final(self).wf(),
            final(self).state == old(self).state,
            final(self).focus == old(self).focus,
            final(self).bfb_pressed == match old(self).bfb_pressed {
                Some(t) => Some(add_spec(t as int, dt as int) as i64),
                None => None,
            },
            final(self).buttons_pressed@ == buttons_kept(old(self).buttons_pressed@, dt as int),
            ({
                let e = buttons_fired(
                    Effects {
                        solver: old(self).solver_state,
                        bubble_buttons: old(self).bubble_buttons,
                        sync_solver: false,
                        salad: false,
                    },
                    old(self).buttons_pressed@,
                    dt as int,
                    old(self).state.monitor_unlocked,
                );
                &&& final(self).solver_state == e.solver
                &&& final(self).bubble_buttons == e.bubble_buttons
                &&& r.sync_solver == e.sync_solver
                &&& r.trap == if final(self).bfb_pressed matches Some(t) && t >= BUTTON_HOLD_TIME {
                    Some(Trap::BigRedButton)
                } else if e.salad {
                    Some(Trap::SaladButton)
                } else {
                    None
                }
            }),
    {
        let mut big_red = false;
        match self.bfb_pressed {
            Some(t) => {
                let t2 = fx_add(t, dt);
                self.bfb_pressed = Some(t2);
                big_red = t2 >= BUTTON_HOLD_TIME;
            },
            None => {},
        }
        let ghost pressed = self.buttons_pressed@;
        let ghost bfb = self.bfb_pressed;
        let ghost e0 = Effects {
            solver: self.solver_state,
            bubble_buttons: self.bubble_buttons,
            sync_solver: false,
            salad: false,
        };
        let mut kept: Vec<(DispatcherItem, i64)> = Vec::new();
        let mut sync_solver = false;
        let mut salad = false;
        let mut i: usize = 0;
        while i < self.buttons_pressed.len()
            invariant
                i <= pressed.len(),
                self.buttons_pressed@ == pressed,
                self.state == old(self).state,
                self.focus == old(self).focus,
                self.bfb_pressed == bfb,
                big_red == (bfb matches Some(t) && t >= BUTTON_HOLD_TIME),
                bfb matches Some(t) ==> in_range(t as int),
                0 <= dt <= LIMIT,
                forall|k: int| 0 <= k < pressed.len() ==> in_range((#[trigger] pressed[k]).1 as int),
                forall|k: int| 0 <= k < kept@.len() ==> in_range((#[trigger] kept@[k]).1 as int),
                kept@ == buttons_kept(pressed.take(i as int), dt as int),
                ({
                    let e = buttons_fired(e0, pressed.take(i as int), dt as int, self.state.monitor_unlocked);
                    &&& self.solver_state == e.solver
                    &&& self.bubble_buttons == e.bubble_buttons
                    &&& sync_solver == e.sync_solver
                    &&& salad == e.salad
                }),
            decreases pressed.len() - i,
        {
            assert(pressed.take(i + 1).drop_last() == pressed.take(i as int));
            let (item, t) = self.buttons_pressed[i];
            let t2 = fx_add(t, dt);
            if t2 >= BUTTON_HOLD_TIME {
                if self.solver_state.levels_completed == 3 && self.bubble_buttons < usize::MAX {
                    self.bubble_buttons = self.bubble_buttons + 1;
                    if self.bubble_buttons == BUBBLE_PRESSES {
                        self.solver_state.levels_completed = 4;
                        sync_solver = true;
                    }
                }
                let monitor = self.state.monitor_unlocked;
                match item {
                    DispatcherItem::ButtonSalad => {
                        if monitor && self.solver_state.levels_completed == 0 {
                            salad = true;
                        }
                    },
                    DispatcherItem::ButtonYellow => {
                        if monitor && self.solver_state.levels_completed == 0 {
                            self.solver_state.levels_completed = 1;
                            sync_solver = true;
                        }
                    },
                    DispatcherItem::ButtonGreen => {
                        if self.solver_state.trashcan_evil && self.solver_state.levels_completed
                            == 2 {
                            self.solver_state.trashcan_evil = false;
                            sync_solver = true;
                        }
                    },
                    DispatcherItem::ButtonCyan => {
                        if self.solver_state.levels_completed == 4 {
                            self.solver_state.levels_completed = 5;
                            sync_solver = true;
                        }
                    },
                    _ => {},
                }
            } else {
                kept.push((item, t2));
            }
            i = i + 1;
        }
        assert(pressed.take(pressed.len() as int) == pressed);
        self.buttons_pressed = kept;
        let trap = if big_red {
            Some(Trap::BigRedButton)
        } else if salad {
            Some(Trap::SaladButton)
        } else {
            None
        };
        ButtonsOutcome { sync_solver, trap }
    }

    pub fn new() -> (r: Self)
        ensures
            r.active_side == DispatcherViewSide::Back,
            r.focus == Focus::Whole,
            r.login_code@.len() == 0,
            r.opened_file is None,
            r.opened_meme is None,
            r.state == DispatcherState::initial(),
            r.solver_state == SolverState::initial(),
            r.solver_player is None,
            r.wf(),
            r.bfb_pressed is None,
            r.buttons_pressed@.len() == 0,
            r.bubble_buttons == 0,
    {
        GameDispatcher {
            active_side: DispatcherViewSide::Back,
            focus: Focus::Whole,
            login_code: Vec::new(),
            opened_file: None,
            opened_meme: None,
            state: DispatcherState::new(),
            solver_state: SolverState::new(),
            solver_player: None,
            bfb_pressed: None,
            buttons_pressed: Vec::new(),
            bubble_buttons: 0,
        }
    }

    /// Whether typing goes to the monitor's login prompt.
    pub open spec fn typing_login(&self) -> bool {
        self.focus == Focus::Monitor && !self.state.monitor_unlocked
    }

    /// Moves the focus; returns whether it changed (the camera then moves).
    pub fn change_focus(&mut self, focus: Focus) -> (changed: bool)
        ensures
            changed == (old(self).focus != focus),
            final(self).focus == focus,
            final(self).login_code == old(self).login_code,
            final(self).state == old(self).state,
            final(self).opened_file == old(self).opened_file,
            final(self).opened_meme == old(self).opened_meme,
            final(self).solver_state == old(self).solver_state,
            final(self).solver_player == old(self).solver_player,
            final(self).bfb_pressed == old(self).bfb_pressed,
            final(self).buttons_pressed == old(self).buttons_pressed,
            final(self).bubble_buttons == old(self).bubble_buttons,
    {
        if self.focus == focus {
            return false;
        }
        self.focus = focus;
        true
    }

    /// A digit typed at the login prompt, kept while the code is not complete.
    pub fn press_digit(&mut self, digit: usize)
        ensures
            final(self).login_code@ == if old(self).typing_login() && old(self).login_code@.len()
                < LOGIN_CODE_LEN {
                old(self).login_code@.push(digit)
            } else {
                old(self).login_code@
            },
            final(self).focus == old(self).focus,
            final(self).state == old(self).state,
    {
        if self.focus == Focus::Monitor && !self.state.monitor_unlocked && self.login_code.len()
            < LOGIN_CODE_LEN {
            self.login_code.push(digit);
        }
    }

    /// Erases the last digit typed at the login prompt.
    pub fn press_backspace(&mut self)
        ensures
            final(self).login_code@ == if old(self).typing_login() && old(self).login_code@.len()
                > 0 {
                old(self).login_code@.drop_last()
            } else {
                old(self).login_code@
            },
            final(self).focus == old(self).focus,
            final(self).state == old(self).state,
    {
        if self.focus == Focus::Monitor && !self.state.monitor_unlocked {
            self.login_code.pop();
        }
    }

    /// Submits the login code; returns whether the monitor got unlocked, in which
    /// case the new progress is to be relayed.
    pub fn press_enter(&mut self) -> (unlocked: bool)
        ensures
            unlocked == (old(self).typing_login() && old(self).login_code@ == unlock_code()),
            unlocked ==> final(self).state == (DispatcherState {
                monitor_unlocked: true,
                ..old(self).state
            }),
            !unlocked ==> final(self).state == old(self).state,
            final(self).login_code == old(self).login_code,
            final(self).focus == old(self).focus,
    {
        if self.focus == Focus::Monitor && !self.state.monitor_unlocked {
            let code = &self.login_code;
            let matches = code.len() == LOGIN_CODE_LEN && code[0] == 6 && code[1] == 6 && code[2]
                == 6;
            assert(matches == (code@ == unlock_code())) by {
                if code@.len() == 3 {
                    if matches {
                        assert(code@ =~= unlock_code());
                    }
                }
            }
            if matches {
                self.state.monitor_unlocked = true;
                return true;
            }
        }
        false
    }

    /// Backs out of what is open on the monitor, or out of the close-up.
    pub fn press_escape(&mut self)
        ensures
            final(self).state == old(self).state,
            final(self).login_code == old(self).login_code,
            match old(self).focus {
                Focus::Book => final(self).focus == Focus::Whole,
                Focus::Monitor => if old(self).opened_file is Some {
                    final(self).opened_file is None && final(self).focus == Focus::Monitor
                        && final(self).opened_meme == old(self).opened_meme
                } else if old(self).opened_meme is Some {
                    final(self).opened_meme is None && final(self).focus == Focus::Monitor
                        && final(self).opened_file is None
                } else {
                    final(self).focus == Focus::Whole && final(self).opened_file is None
                        && final(self).opened_meme is None
                },
                Focus::Whole => final(self).focus == Focus::Whole && final(self).opened_file
                    == old(self).opened_file && final(self).opened_meme == old(self).opened_meme,
            },
    {
        match self.focus {
            Focus::Book => {
                self.change_focus(Focus::Whole);
            },
            Focus::Monitor => {
                if self.opened_file.take().is_some() {
                    return ;
                }
                if self.opened_meme.take().is_some() {
                    return ;
                }
                self.change_focus(Focus::Whole);
            },
            Focus::Whole => {},
        }
    }

    /// Takes in what the solver relayed, or a replacement of the dispatcher's half.
    pub fn handle_message(&mut self, message: &ServerMessage)
        ensures
            final(self).focus == old(self).focus,
            final(self).login_code == old(self).login_code,
            match *message {
                ServerMessage::SyncDispatcherState(d) => final(self).state == d
                    && final(self).solver_state == old(self).solver_state
                    && final(self).solver_player == old(self).solver_player,
                ServerMessage::SyncSolverState(st) => final(self).solver_state == st
                    && final(self).state == old(self).state
                    && final(self).solver_player == old(self).solver_player,
                ServerMessage::SyncSolverPlayer(p) => final(self).solver_player == Some(p)
                    && final(self).state == old(self).state
                    && final(self).solver_state == old(self).solver_state,
                _ => final(self).state == old(self).state && final(self).solver_state == old(
                    self,
                ).solver_state && final(self).solver_player == old(self).solver_player,
            },
    {
        match message {
            ServerMessage::SyncDispatcherState(d) => {
                self.state = *d;
            },
            ServerMessage::SyncSolverState(st) => {
                self.solver_state = *st;
            },
            ServerMessage::SyncSolverPlayer(p) => {
                self.solver_player = Some(*p);
            },
            _ => {},
        }
    }
}

} // verus!

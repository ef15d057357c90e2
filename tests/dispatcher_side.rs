use friendly_jam::dispatcher::DispatcherViewSide::{Back, Front, Left, Right};
use friendly_jam::dispatcher::{GameDispatcher, DispatcherItem, Focus, Trap};
use friendly_jam::interop::ServerMessage;
use friendly_jam::model::{DispatcherState, SolverState};

#[test]
fn view_sides_cycle() {
    assert_eq!(Front.cycle_left(), Left);
    assert_eq!(Left.cycle_left(), Back);
    assert_eq!(Back.cycle_left(), Right);
    assert_eq!(Right.cycle_left(), Front);
    assert_eq!(Front.cycle_right(), Right);
    assert_eq!(Right.cycle_right(), Back);
    assert_eq!(Back.cycle_right(), Left);
    assert_eq!(Left.cycle_right(), Front);
    for side in [Front, Left, Right, Back] {
        assert_eq!(side.cycle_left().cycle_right(), side);
    }
}

#[test]
fn interactable_items() {
    assert!(!DispatcherItem::Door.is_interactable());
    assert!(!DispatcherItem::Table.is_interactable());
    assert!(DispatcherItem::Monitor.is_interactable());
    assert!(DispatcherItem::ButtonCyan.is_interactable());
    assert!(DispatcherItem::Bfb.is_interactable());
}

#[test]
fn login_code_unlocks_monitor() {
    let mut d = GameDispatcher::new();
    d.press_digit(6);
    assert!(d.login_code.is_empty());
    assert!(d.change_focus(Focus::Monitor));
    assert!(!d.change_focus(Focus::Monitor));
    d.press_digit(6);
    d.press_digit(1);
    d.press_backspace();
    d.press_digit(6);
    d.press_digit(6);
    d.press_digit(6);
    assert_eq!(d.login_code, vec![6, 6, 6]);
    assert!(d.press_enter());
    assert!(d.state.monitor_unlocked);
    assert!(!d.press_enter());
}

#[test]
fn wrong_login_code_keeps_monitor_locked() {
    let mut d = GameDispatcher::new();
    d.change_focus(Focus::Monitor);
    d.press_digit(1);
    d.press_digit(2);
    d.press_digit(3);
    assert!(!d.press_enter());
    assert!(!d.state.monitor_unlocked);
}

#[test]
fn escape_backs_out() {
    let mut d = GameDispatcher::new();
    d.change_focus(Focus::Monitor);
    d.opened_file = Some(2);
    d.press_escape();
    assert_eq!(d.opened_file, None);
    assert_eq!(d.focus, Focus::Monitor);
    d.press_escape();
    assert_eq!(d.focus, Focus::Whole);
    d.change_focus(Focus::Book);
    d.press_escape();
    assert_eq!(d.focus, Focus::Whole);
}

#[test]
fn dispatcher_takes_relayed_progress() {
    let mut d = GameDispatcher::new();
    let mut st = SolverState::new();
    st.levels_completed = 2;
    d.handle_message(&ServerMessage::SyncSolverState(st));
    assert_eq!(d.solver_state.levels_completed, 2);
    let ds = DispatcherState { button_station_open: true, door_sign_open: false, monitor_unlocked: true };
    d.handle_message(&ServerMessage::SyncDispatcherState(ds));
    assert_eq!(d.state, ds);
    d.handle_message(&ServerMessage::Ping);
    assert_eq!(d.state, ds);
}

#[test]
fn clicks_toggle_and_press() {
    let mut d = GameDispatcher::new();
    assert!(d.click_item(DispatcherItem::DoorSign, false));
    assert!(d.state.door_sign_open);
    assert!(!d.click_item(DispatcherItem::ButtonYellow, false));
    assert!(d.buttons_pressed.is_empty());
    assert!(d.click_item(DispatcherItem::ButtonStation, false));
    assert!(d.state.button_station_open);
    assert!(!d.click_item(DispatcherItem::ButtonStation, true));
    assert!(d.state.button_station_open);
    assert!(!d.click_item(DispatcherItem::ButtonYellow, true));
    assert!(!d.click_item(DispatcherItem::ButtonYellow, true));
    assert_eq!(d.buttons_pressed, vec![(DispatcherItem::ButtonYellow, 0)]);
    assert!(!d.click_item(DispatcherItem::Bfb, true));
    assert_eq!(d.bfb_pressed, Some(0));
    assert!(!d.click_item(DispatcherItem::Book, false));
    assert_eq!(d.focus, Focus::Book);
}

#[test]
fn yellow_button_completes_first_level_once_held() {
    let mut d = GameDispatcher::new();
    d.state.monitor_unlocked = true;
    d.state.button_station_open = true;
    d.click_item(DispatcherItem::ButtonYellow, true);
    let out = d.update_buttons(600);
    assert!(!out.sync_solver);
    assert_eq!(out.trap, None);
    assert_eq!(d.buttons_pressed, vec![(DispatcherItem::ButtonYellow, 600)]);
    let out = d.update_buttons(400);
    assert!(out.sync_solver);
    assert_eq!(d.solver_state.levels_completed, 1);
    assert!(d.buttons_pressed.is_empty());
    d.click_item(DispatcherItem::ButtonSalad, true);
    let out = d.update_buttons(1000);
    assert_eq!(out.trap, None);
    d.solver_state.levels_completed = 0;
    d.click_item(DispatcherItem::ButtonSalad, true);
    let out = d.update_buttons(1000);
    assert_eq!(out.trap, Some(Trap::SaladButton));
}

#[test]
fn big_red_button_is_a_trap() {
    let mut d = GameDispatcher::new();
    d.click_item(DispatcherItem::Bfb, false);
    assert_eq!(d.update_buttons(999).trap, None);
    assert_eq!(d.update_buttons(1).trap, Some(Trap::BigRedButton));
}

#[test]
fn bubble_puzzle_needs_five_presses() {
    let mut d = GameDispatcher::new();
    d.state.button_station_open = true;
    d.solver_state.levels_completed = 3;
    for (i, item) in [
        DispatcherItem::ButtonPink,
        DispatcherItem::ButtonBlue,
        DispatcherItem::ButtonWhite,
        DispatcherItem::ButtonPurple,
        DispatcherItem::ButtonOrange,
    ]
    .into_iter()
    .enumerate()
    {
        d.click_item(item, true);
        let out = d.update_buttons(1000);
        assert_eq!(out.sync_solver, i == 4);
    }
    assert_eq!(d.solver_state.levels_completed, 4);
    d.click_item(DispatcherItem::ButtonCyan, true);
    assert!(d.update_buttons(1000).sync_solver);
    assert_eq!(d.solver_state.levels_completed, 5);
}

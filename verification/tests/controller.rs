use esp32s3_farmstick::controller::{
    active_buttons, ButtonEdge, ControllerState, DebouncedButton, MouseAction, ShortcutAction,
};
use esp32s3_farmstick::joystick::ActiveJoystick;
use esp32s3_farmstick::keyboard::KeyboardReport;
use esp32s3_farmstick::matrix::KeyEvent;
use esp32s3_farmstick::mouse::MouseReport;
use esp32s3_farmstick::profile::ControllerProfile;

#[test]
fn profile_toggle_and_label() {
    let mut p = ControllerProfile::default();
    assert_eq!(p, ControllerProfile::FarmSim);
    assert_eq!(p.label(), "FARMSIM (Joystick & Buttons)");
    assert_eq!(p.toggle(), ControllerProfile::Macropad);
    assert_eq!(p.label(), "MACROPAD (F13-F24 & 3D Look)");
    p.toggle();
    assert_eq!(p, ControllerProfile::FarmSim);
}

#[test]
fn joystick_toggle() {
    let mut j = ActiveJoystick::Joystick1;
    assert_eq!(j.toggle(), ActiveJoystick::Joystick2);
    assert_eq!(j.toggle(), ActiveJoystick::Joystick1);
}

#[test]
fn active_buttons_suppresses_shortcut_keys() {
    assert_eq!(active_buttons(0xFFFF, true), 0xFFE7);
    assert_eq!(active_buttons(0xFFFF, false), 0xFFFF);
    assert_eq!(active_buttons(0b1_1000, true), 0);
}

fn pressed(index: u8, key: char) -> KeyEvent {
    KeyEvent::Pressed { row: index / 4, col: index % 4, key, index }
}

#[test]
fn shortcut_switches_to_macropad() {
    let mut s = ControllerState::new();
    let a = s.handle_shortcut(true, &[pressed(0, '1'), pressed(4, '4')]);
    assert_eq!(a, ShortcutAction::ClearGamepad);
    assert_eq!(s.profile, ControllerProfile::Macropad);
    assert!(s.shortcut_triggered);
}

#[test]
fn shortcut_back_to_farmsim_clears_state() {
    let mut s = ControllerState::new();
    s.profile = ControllerProfile::Macropad;
    s.last_kbd_report = KeyboardReport::from_buttons_bitmask(1);
    s.last_mouse_had_activity = true;
    let a = s.handle_shortcut(true, &[pressed(3, 'A')]);
    assert_eq!(a, ShortcutAction::ClearKeyboardAndMouse);
    assert_eq!(s.profile, ControllerProfile::FarmSim);
    assert_eq!(s.last_kbd_report, KeyboardReport::default());
    assert!(!s.last_mouse_had_activity);
}

#[test]
fn shortcut_needs_switch_and_press() {
    let mut s = ControllerState::new();
    assert_eq!(s.handle_shortcut(false, &[pressed(4, '4')]), ShortcutAction::NoSwitch);
    let released = KeyEvent::Released { row: 1, col: 0, key: '4', index: 4 };
    assert_eq!(s.handle_shortcut(true, &[released, pressed(0, '1')]), ShortcutAction::NoSwitch);
    assert_eq!(s, ControllerState::new());
}

#[test]
fn shortcut_only_once_per_poll() {
    let mut s = ControllerState::new();
    s.handle_shortcut(true, &[pressed(3, 'A'), pressed(4, '4')]);
    assert_eq!(s.profile, ControllerProfile::Macropad);
}

#[test]
fn switch_release_toggles_joystick_in_farmsim() {
    let mut s = ControllerState::new();
    assert!(s.on_switch_released());
    assert_eq!(s.active_joystick, ActiveJoystick::Joystick2);
    s.shortcut_triggered = true;
    assert!(!s.on_switch_released());
    assert!(!s.shortcut_triggered);
    assert_eq!(s.active_joystick, ActiveJoystick::Joystick2);
    s.profile = ControllerProfile::Macropad;
    assert!(!s.on_switch_released());
    assert_eq!(s.active_joystick, ActiveJoystick::Joystick2);
}

#[test]
fn middle_click_unless_shortcut() {
    let mut s = ControllerState::new();
    assert!(s.middle_click(true));
    assert!(!s.middle_click(false));
    s.shortcut_triggered = true;
    assert!(!s.middle_click(true));
}

#[test]
fn keyboard_report_sent_on_change_only() {
    let mut s = ControllerState::new();
    let r = KeyboardReport::from_buttons_bitmask(2);
    assert!(s.keyboard_report_changed(r));
    assert!(!s.keyboard_report_changed(r));
    assert!(s.keyboard_report_changed(KeyboardReport::default()));
}

#[test]
fn mouse_release_sent_once() {
    let mut s = ControllerState::new();
    let idle = MouseReport::default();
    let moving = MouseReport { buttons: 0, x: 3, y: 0, wheel: 0 };
    assert_eq!(s.mouse_action(&idle), MouseAction::Idle);
    assert_eq!(s.mouse_action(&moving), MouseAction::Send);
    assert_eq!(s.mouse_action(&moving), MouseAction::Send);
    assert_eq!(s.mouse_action(&idle), MouseAction::SendRelease);
    assert_eq!(s.mouse_action(&idle), MouseAction::Idle);
}

#[test]
fn debounced_button_edges() {
    let mut b = DebouncedButton::new();
    assert_eq!(b.update(true), ButtonEdge::Unchanged);
    assert!(!b.is_held());
    assert_eq!(b.update(true), ButtonEdge::Pressed);
    assert!(b.is_held());
    assert_eq!(b.update(false), ButtonEdge::Unchanged);
    assert_eq!(b.update(true), ButtonEdge::Unchanged);
    assert_eq!(b.update(false), ButtonEdge::Unchanged);
    assert_eq!(b.update(false), ButtonEdge::Released);
    assert!(!b.is_held());
}

use esp32s3_farmstick::gamepad::{GamepadReport, GAMEPAD_REPORT_DESCRIPTOR};
use esp32s3_farmstick::joystick::ActiveJoystick;
use esp32s3_farmstick::keyboard::{KeyboardReport, KEYBOARD_REPORT_DESCRIPTOR, MACROPAD_KEYCODES};
use esp32s3_farmstick::mouse::{MouseReport, MOUSE_REPORT_DESCRIPTOR};

#[test]
fn gamepad_new_joystick1_fills_xyz() {
    let r = GamepadReport::new(ActiveJoystick::Joystick1, 10, -20, 127, 0x8001);
    assert_eq!(r, GamepadReport { buttons: 0x8001, x: 10, y: -20, z: 127, rx: 0, ry: 0, rz: 0 });
}

#[test]
fn gamepad_new_joystick2_fills_rotations() {
    let r = GamepadReport::new(ActiveJoystick::Joystick2, 10, -20, -127, 7);
    assert_eq!(r, GamepadReport { buttons: 7, x: 0, y: 0, z: 0, rx: 10, ry: -20, rz: -127 });
}

#[test]
fn gamepad_to_bytes_little_endian_twos_complement() {
    let r = GamepadReport { buttons: 0x1234, x: -1, y: 1, z: -127, rx: 127, ry: 0, rz: -2 };
    assert_eq!(r.to_bytes(), [0x34, 0x12, 0xFF, 0x01, 0x81, 0x7F, 0x00, 0xFE]);
}

#[test]
fn gamepad_default_is_neutral() {
    assert_eq!(GamepadReport::default().to_bytes(), [0u8; 8]);
}

#[test]
fn gamepad_descriptor_shape() {
    assert_eq!(GAMEPAD_REPORT_DESCRIPTOR.len(), 59);
    assert_eq!(&GAMEPAD_REPORT_DESCRIPTOR[0..6], &[0x05, 0x01, 0x09, 0x05, 0xA1, 0x01]);
    assert_eq!(GAMEPAD_REPORT_DESCRIPTOR[58], 0xC0);
}

#[test]
fn keyboard_no_buttons_no_keys() {
    let r = KeyboardReport::from_buttons_bitmask(0);
    assert_eq!(r.keycodes, [0u8; 6]);
    assert_eq!(r.modifiers, 0);
    assert!(!r.has_pressed_keys());
}

#[test]
fn keyboard_buttons_map_in_order() {
    let r = KeyboardReport::from_buttons_bitmask(0b1000_0000_0000_0101);
    assert_eq!(r.keycodes, [0x68, 0x6A, 0x77, 0, 0, 0]);
    assert!(r.has_pressed_keys());
    assert_eq!(r.to_bytes(), [0, 0, 0x68, 0x6A, 0x77, 0, 0, 0]);
}

#[test]
fn keyboard_at_most_six_keys() {
    let r = KeyboardReport::from_buttons_bitmask(0xFFFF);
    assert_eq!(r.keycodes, [0x68, 0x69, 0x6A, 0x6B, 0x6C, 0x6D]);
    let r2 = KeyboardReport::from_buttons_bitmask(0xFFC0);
    assert_eq!(r2.keycodes, [0x6E, 0x6F, 0x70, 0x71, 0x72, 0x73]);
}

#[test]
fn keyboard_keycode_table() {
    for (i, k) in MACROPAD_KEYCODES.iter().enumerate() {
        assert_eq!(*k as usize, 0x68 + i);
    }
}

#[test]
fn keyboard_modifier_counts_as_pressed() {
    let r = KeyboardReport { modifiers: 2, reserved: 0, keycodes: [0; 6] };
    assert!(r.has_pressed_keys());
    let r2 = KeyboardReport { modifiers: 0, reserved: 0, keycodes: [0, 0, 0, 0, 0, 9] };
    assert!(r2.has_pressed_keys());
}

#[test]
fn keyboard_equality_and_default() {
    assert_eq!(KeyboardReport::default(), KeyboardReport::from_buttons_bitmask(0));
    assert!(KeyboardReport::default() != KeyboardReport::from_buttons_bitmask(1));
}

#[test]
fn keyboard_descriptor_shape() {
    assert_eq!(KEYBOARD_REPORT_DESCRIPTOR.len(), 45);
    assert_eq!(KEYBOARD_REPORT_DESCRIPTOR[44], 0xC0);
}

#[test]
fn mouse_activity() {
    assert!(!MouseReport::default().has_activity());
    assert!(MouseReport { buttons: 0, x: 0, y: 0, wheel: -1 }.has_activity());
    assert!(MouseReport { buttons: 1, x: 0, y: 0, wheel: 0 }.has_activity());
}

#[test]
fn mouse_from_motion_middle_click_and_wheel_limit() {
    let r = MouseReport::from_motion(5, -6, -128, true);
    assert_eq!(r, MouseReport { buttons: 4, x: 5, y: -6, wheel: -127 });
    let r2 = MouseReport::from_motion(0, 0, 127, false);
    assert_eq!(r2, MouseReport { buttons: 0, x: 0, y: 0, wheel: 127 });
    assert!(!MouseReport::from_motion(0, 0, 0, false).has_activity());
}

#[test]
fn mouse_to_bytes() {
    let r = MouseReport { buttons: 4, x: -1, y: 100, wheel: -127 };
    assert_eq!(r.to_bytes(), [4, 0xFF, 100, 0x81]);
}

#[test]
fn mouse_descriptor_shape() {
    assert_eq!(MOUSE_REPORT_DESCRIPTOR.len(), 62);
    assert_eq!(&MOUSE_REPORT_DESCRIPTOR[60..62], &[0xC0, 0xC0]);
}

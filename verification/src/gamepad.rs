//! USB HID gamepad report: 16 buttons and two 3-axis joysticks.

use vstd::prelude::*;
use crate::descriptor::{input_bits_from, input_report_bits};
use crate::joystick::ActiveJoystick;

verus! {

/// Standard USB HID gamepad report descriptor: 16 buttons (1 bit each),
/// joystick 1 X, Y, Z and joystick 2 Rx, Ry, Rz (signed 8-bit, -127..127).
pub const GAMEPAD_REPORT_DESCRIPTOR: [u8; 59] = [
    0x05, 0x01, // Usage Page (Generic Desktop)
    0x09, 0x05, // Usage (Game Pad)
    0xA1, 0x01, // Collection (Application)
    0x05, 0x09, //   Usage Page (Button)
    0x19, 0x01, //   Usage Minimum (Button 1)
    0x29, 0x10, //   Usage Maximum (Button 16)
    0x15, 0x00, //   Logical Minimum (0)
    0x25, 0x01, //   Logical Maximum (1)
    0x75, 0x01, //   Report Size (1 bit)
    0x95, 0x10, //   Report Count (16 buttons)
    0x81, 0x02, //   Input (Data, Var, Abs)
    0x05, 0x01, //   Usage Page (Generic Desktop)
    0x09, 0x30, //   Usage (X)
    0x09, 0x31, //   Usage (Y)
    0x09, 0x32, //   Usage (Z)
    0x15, 0x81, //   Logical Minimum (-127)
    0x25, 0x7F, //   Logical Maximum (127)
    0x75, 0x08, //   Report Size (8 bits)
    0x95, 0x03, //   Report Count (3 axes)
    0x81, 0x02, //   Input (Data, Var, Abs)
    0x05, 0x01, //   Usage Page (Generic Desktop)
    0x09, 0x33, //   Usage (Rx)
    0x09, 0x34, //   Usage (Ry)
    0x09, 0x35, //   Usage (Rz)
    0x15, 0x81, //   Logical Minimum (-127)
    0x25, 0x7F, //   Logical Maximum (127)
    0x75, 0x08, //   Report Size (8 bits)
    0x95, 0x03, //   Report Count (3 axes)
    0x81, 0x02, //   Input (Data, Var, Abs)
    0xC0, // End Collection
];

/// The byte that carries a signed axis value in a report: its
/// two's-complement representation.
pub open spec fn axis_byte(v: i8) -> u8 {
    (if v < 0 { v + 256 } else { v as int }) as u8
}

/// 8-byte USB gamepad report.
#[derive(Debug, Clone, Copy, PartialEq, Eq, Structural)]
pub struct GamepadReport {
    /// 16 buttons bitmask (bit 0 = button 1, bit 15 = button 16).
    pub buttons: u16,
    /// Joystick 1 X axis (-127 to 127).
    pub x: i8,
    /// Joystick 1 Y axis (-127 to 127).
    pub y: i8,
    /// Joystick 1 Z axis (-127 to 127).
    pub z: i8,
    /// Joystick 2 X axis (-127 to 127).
    pub rx: i8,
    /// Joystick 2 Y axis (-127 to 127).
    pub ry: i8,
    /// Joystick 2 Z axis (-127 to 127).
    pub rz: i8,
}

/// The bytes of a low-endian 16-bit value followed by six axis bytes.
pub open spec fn gamepad_bytes(r: GamepadReport) -> Seq<u8> {
    seq![
        (r.buttons % 256) as u8,
        (r.buttons / 256) as u8,
        axis_byte(r.x),
        axis_byte(r.y),
        axis_byte(r.z),
        axis_byte(r.rx),
        axis_byte(r.ry),
        axis_byte(r.rz),
    ]
}

/// The byte that `v as u8` gives.
pub(crate) fn i8_to_byte(v: i8) -> (b: u8)
    ensures
        b == axis_byte(v),
{
    let b = #[verifier::truncate] (v as u8);
    assert(b as int == (if v < 0 { v + 256 } else { v as int })) by (bit_vector)
        requires
            b == #[verifier::truncate] (v as u8),
    ;
    b
}

impl GamepadReport {
    /// Builds a report from the active joystick mode, the three axis values
    /// already scaled to -127..127 and the 16-button bitmask. The axes go to
    /// X/Y/Z for joystick 1 and to Rx/Ry/Rz for joystick 2; the other three
    /// axes stay 0.
    pub fn new(active: ActiveJoystick, axis_x: i8, axis_y: i8, axis_z: i8, buttons_bitmask: u16) -> (r: GamepadReport)
        ensures
            r.buttons == buttons_bitmask,
            active == ActiveJoystick::Joystick1 ==> r.x == axis_x && r.y == axis_y && r.z == axis_z
                && r.rx == 0 && r.ry == 0 && r.rz == 0,
            active == ActiveJoystick::Joystick2 ==> r.x == 0 && r.y == 0 && r.z == 0
                && r.rx == axis_x && r.ry == axis_y && r.rz == axis_z,
    {
        match active {
            ActiveJoystick::Joystick1 => GamepadReport {
                buttons: buttons_bitmask,
                x: axis_x,
                y: axis_y,
                z: axis_z,
                rx: 0,
                ry: 0,
                rz: 0,
            },
            ActiveJoystick::Joystick2 => GamepadReport {
                buttons: buttons_bitmask,
                x: 0,
                y: 0,
                z: 0,
                rx: axis_x,
                ry: axis_y,
                rz: axis_z,
            },
        }
    }

    /// Serializes the report into 8 bytes for USB transmission: the button
    /// mask low byte first, then X, Y, Z, Rx, Ry, Rz.
    pub fn to_bytes(&self) -> (b: [u8; 8])
        ensures
            b@ == gamepad_bytes(*self),
    {
        let buttons = self.buttons;
        let lo = #[verifier::truncate] ((buttons & 0xff) as u8);
        let hi = #[verifier::truncate] ((buttons >> 8) as u8);
        assert(lo == buttons % 256 && hi == buttons / 256) by (bit_vector)
            requires
                lo == #[verifier::truncate] ((buttons & 0xff) as u8),
                hi == #[verifier::truncate] ((buttons >> 8) as u8),
        ;
        let b = [
            lo,
            hi,
            i8_to_byte(self.x),
            i8_to_byte(self.y),
            i8_to_byte(self.z),
            i8_to_byte(self.rx),
            i8_to_byte(self.ry),
            i8_to_byte(self.rz),
        ];
        assert(b@ =~= gamepad_bytes(*self));
        b
    }
}

impl Default for GamepadReport {
    /// The neutral report: no button pressed, every axis centred.
    fn default() -> (r: GamepadReport)
        ensures
            r == (GamepadReport { buttons: 0, x: 0, y: 0, z: 0, rx: 0, ry: 0, rz: 0 }),
    {
        GamepadReport { buttons: 0, x: 0, y: 0, z: 0, rx: 0, ry: 0, rz: 0 }
    }
}

/// Two reports with the same bytes are the same report: the 8 bytes carry
/// every field.
pub proof fn lemma_gamepad_bytes_injective(a: GamepadReport, b: GamepadReport)
    requires
        gamepad_bytes(a) == gamepad_bytes(b),
    ensures
        a == b,
{
    assert(gamepad_bytes(a)[0] == gamepad_bytes(b)[0]);
    assert(gamepad_bytes(a)[1] == gamepad_bytes(b)[1]);
    assert(gamepad_bytes(a)[2] == gamepad_bytes(b)[2]);
    assert(gamepad_bytes(a)[3] == gamepad_bytes(b)[3]);
    assert(gamepad_bytes(a)[4] == gamepad_bytes(b)[4]);
    assert(gamepad_bytes(a)[5] == gamepad_bytes(b)[5]);
    assert(gamepad_bytes(a)[6] == gamepad_bytes(b)[6]);
    assert(gamepad_bytes(a)[7] == gamepad_bytes(b)[7]);
}

/// The gamepad report descriptor declares exactly the 8 bytes that
/// `to_bytes` produces.
pub proof fn lemma_gamepad_descriptor_matches_report(r: GamepadReport)
    ensures
        input_report_bits(GAMEPAD_REPORT_DESCRIPTOR@) == 8 * gamepad_bytes(r).len(),
{
    reveal_with_fuel(input_bits_from, 32);
}

} // verus!

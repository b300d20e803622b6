//! USB HID mouse report for 3D navigation and look-around.

use vstd::prelude::*;
use crate::descriptor::{input_bits_from, input_report_bits};
use crate::gamepad::{axis_byte, i8_to_byte};

verus! {

/// Standard USB HID mouse report descriptor: 5 buttons, 3 padding bits,
/// relative X and Y, and a relative wheel (signed 8-bit, -127..127).
pub const MOUSE_REPORT_DESCRIPTOR: [u8; 62] = [
    0x05, 0x01, // Usage Page (Generic Desktop)
    0x09, 0x02, // Usage (Mouse)
    0xA1, 0x01, // Collection (Application)
    0x09, 0x01, //   Usage (Pointer)
    0xA1, 0x00, //   Collection (Physical)
    0x05, 0x09, //     Usage Page (Button)
    0x19, 0x01, //     Usage Minimum (Button 1)
    0x29, 0x05, //     Usage Maximum (Button 5)
    0x15, 0x00, //     Logical Minimum (0)
    0x25, 0x01, //     Logical Maximum (1)
    0x75, 0x01, //     Report Size (1 bit)
    0x95, 0x05, //     Report Count (5 buttons)
    0x81, 0x02, //     Input (Data, Variable, Absolute)
    0x75, 0x03, //     Report Size (3 bits)
    0x95, 0x01, //     Report Count (1)
    0x81, 0x01, //     Input (Constant)
    0x05, 0x01, //     Usage Page (Generic Desktop)
    0x09, 0x30, //     Usage (X)
    0x09, 0x31, //     Usage (Y)
    0x15, 0x81, //     Logical Minimum (-127)
    0x25, 0x7F, //     Logical Maximum (127)
    0x75, 0x08, //     Report Size (8 bits)
    0x95, 0x02, //     Report Count (2 axes)
    0x81, 0x06, //     Input (Data, Variable, Relative)
    0x09, 0x38, //     Usage (Wheel)
    0x15, 0x81, //     Logical Minimum (-127)
    0x25, 0x7F, //     Logical Maximum (127)
    0x75, 0x08, //     Report Size (8 bits)
    0x95, 0x01, //     Report Count (1 axis)
    0x81, 0x06, //     Input (Data, Variable, Relative)
    0xC0, //   End Collection
    0xC0, // End Collection
];

/// 4-byte standard USB HID mouse report.
#[derive(Debug, Clone, Copy, PartialEq, Eq, Structural)]
pub struct MouseReport {
    /// Button bitmask (bit 0 = left, 1 = right, 2 = middle, 3 = back, 4 = forward).
    pub buttons: u8,
    /// Relative X movement (-127 to 127).
    pub x: i8,
    /// Relative Y movement (-127 to 127).
    pub y: i8,
    /// Relative wheel movement (-127 to 127).
    pub wheel: i8,
}

/// The bytes of a mouse report: buttons, X, Y, wheel.
pub open spec fn mouse_bytes(r: MouseReport) -> Seq<u8> {
    seq![r.buttons, axis_byte(r.x), axis_byte(r.y), axis_byte(r.wheel)]
}

/// Whether a report moves the pointer or the wheel or presses a button.
pub open spec fn mouse_active(r: MouseReport) -> bool {
    r.buttons != 0 || r.x != 0 || r.y != 0 || r.wheel != 0
}

/// A wheel step limited to -127..127.
pub open spec fn clamp_wheel(v: i8) -> i8 {
    if v < -127 {
        -127i8
    } else {
        v
    }
}

impl MouseReport {
    /// Whether this report contains any movement or button press.
    pub fn has_activity(&self) -> (r: bool)
        ensures
            r == mouse_active(*self),
    {
        self.buttons != 0 || self.x != 0 || self.y != 0 || self.wheel != 0
    }

    /// Builds a look-around report from the pointer movement already scaled
    /// to -127..127, the whole wheel steps taken from the scroll
    /// accumulator (limited to -127..127) and whether the middle button is
    /// held (for CAD/Blender orbit): the middle button is bit 2 of the mask.
    pub fn from_motion(dx: i8, dy: i8, wheel_step: i8, middle_click: bool) -> (r: MouseReport)
        ensures
            r.buttons == if middle_click { 4u8 } else { 0u8 },
            r.x == dx,
            r.y == dy,
            r.wheel == clamp_wheel(wheel_step),
    {
        let wheel = if wheel_step < -127 { -127 } else { wheel_step };
        let mut buttons = 0u8;
        if middle_click {
            buttons = buttons | (1u8 << 2u8);
            assert((0u8 | (1u8 << 2u8)) == 4u8) by (bit_vector);
        }
        MouseReport { buttons, x: dx, y: dy, wheel }
    }

    /// Serializes the report into 4 bytes for USB HID transmission.
    pub fn to_bytes(&self) -> (b: [u8; 4])
        ensures
            b@ == mouse_bytes(*self),
    {
        let b = [self.buttons, i8_to_byte(self.x), i8_to_byte(self.y), i8_to_byte(self.wheel)];
        assert(b@ =~= mouse_bytes(*self));
        b
    }
}

impl Default for MouseReport {
    /// The idle report: no button, no movement.
    fn default() -> (r: MouseReport)
        ensures
            r == (MouseReport { buttons: 0, x: 0, y: 0, wheel: 0 }),
    {
        MouseReport { buttons: 0, x: 0, y: 0, wheel: 0 }
    }
}

/// A report that holds the middle button is always active, and one built
/// without motion, wheel or button is idle.
pub proof fn lemma_motion_activity(dx: i8, dy: i8, wheel_step: i8, middle_click: bool, r: MouseReport)
    requires
        r.buttons == if middle_click { 4u8 } else { 0u8 },
        r.x == dx,
        r.y == dy,
        r.wheel == clamp_wheel(wheel_step),
    ensures
        mouse_active(r) == (middle_click || dx != 0 || dy != 0 || wheel_step != 0),
{
}

/// The mouse report descriptor declares exactly the 4 bytes that
/// `to_bytes` produces.
pub proof fn lemma_mouse_descriptor_matches_report(r: MouseReport)
    ensures
        input_report_bits(MOUSE_REPORT_DESCRIPTOR@) == 8 * mouse_bytes(r).len(),
{
    reveal_with_fuel(input_bits_from, 34);
}

/// Two mouse reports with the same bytes are the same report.
pub proof fn lemma_mouse_bytes_injective(a: MouseReport, b: MouseReport)
    requires
        mouse_bytes(a) == mouse_bytes(b),
    ensures
        a == b,
{
    assert(mouse_bytes(a)[0] == mouse_bytes(b)[0]);
    assert(mouse_bytes(a)[1] == mouse_bytes(b)[1]);
    assert(mouse_bytes(a)[2] == mouse_bytes(b)[2]);
    assert(mouse_bytes(a)[3] == mouse_bytes(b)[3]);
}

} // verus!

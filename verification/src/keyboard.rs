//! USB HID boot keyboard report for the Macropad profile: the 16 keypad
//! buttons map to F13..F24 and four extra keys.

use vstd::prelude::*;
use crate::descriptor::{input_bits_from, input_report_bits};
use crate::matrix::{key_bit, lemma_zero_bits};

verus! {

/// Standard USB HID boot keyboard report descriptor: 8 modifier bits, one
/// reserved byte and an array of 6 keycodes.
pub const KEYBOARD_REPORT_DESCRIPTOR: [u8; 45] = [
    0x05, 0x01, // Usage Page (Generic Desktop)
    0x09, 0x06, // Usage (Keyboard)
    0xA1, 0x01, // Collection (Application)
    0x05, 0x07, //   Usage Page (Key Codes)
    0x19, 0xE0, //   Usage Minimum (Keyboard Left Control)
    0x29, 0xE7, //   Usage Maximum (Keyboard Right GUI)
    0x15, 0x00, //   Logical Minimum (0)
    0x25, 0x01, //   Logical Maximum (1)
    0x75, 0x01, //   Report Size (1 bit)
    0x95, 0x08, //   Report Count (8 bits)
    0x81, 0x02, //   Input (Data, Variable, Absolute)
    0x95, 0x01, //   Report Count (1 byte)
    0x75, 0x08, //   Report Size (8 bits)
    0x81, 0x01, //   Input (Constant)
    0x95, 0x06, //   Report Count (6 keys)
    0x75, 0x08, //   Report Size (8 bits)
    0x15, 0x00, //   Logical Minimum (0)
    0x25, 0xFF, //   Logical Maximum (255)
    0x05, 0x07, //   Usage Page (Key Codes)
    0x19, 0x00, //   Usage Minimum (0)
    0x29, 0xFF, //   Usage Maximum (255)
    0x81, 0x00, //   Input (Data, Array)
    0xC0, // End Collection
];

/// Mapping of the 16 keypad button indices to USB HID usage keycodes.
///
/// Buttons 1..12 map to F13..F24; buttons 13..16 map to Execute, Help,
/// Menu and Select.
pub const MACROPAD_KEYCODES: [u8; 16] = [
    0x68, 0x69, 0x6A, 0x6B, 0x6C, 0x6D, 0x6E, 0x6F,
    0x70, 0x71, 0x72, 0x73, 0x74, 0x75, 0x76, 0x77,
];

/// 8-byte standard USB HID keyboard report.
#[derive(Debug, Clone, Copy, Eq)]
pub struct KeyboardReport {
    /// Modifier keys (Ctrl, Shift, Alt, GUI).
    pub modifiers: u8,
    /// Reserved byte (always 0).
    pub reserved: u8,
    /// Up to 6 active keycodes (6KRO).
    pub keycodes: [u8; 6],
}

/// The keycodes of the pressed buttons among buttons `0..n`, in button
/// order.
pub open spec fn pressed_keycodes(buttons_bitmask: u16, n: int) -> Seq<u8>
    decreases n,
{
    if n <= 0 {
        Seq::empty()
    } else {
        let before = pressed_keycodes(buttons_bitmask, n - 1);
        if key_bit(buttons_bitmask, n - 1) {
            before.push(MACROPAD_KEYCODES[n - 1])
        } else {
            before
        }
    }
}

/// The six keycode slots for the given pressed keycodes: the first six in
/// order, then zeros.
pub open spec fn keycode_slots(pressed: Seq<u8>) -> Seq<u8> {
    Seq::new(6, |j: int| if j < pressed.len() { pressed[j] } else { 0u8 })
}

/// Whether a report carries a pressed key: a modifier or a nonzero keycode.
pub open spec fn report_has_keys(r: KeyboardReport) -> bool {
    r.modifiers != 0 || exists|j: int| 0 <= j < 6 && #[trigger] r.keycodes@[j] != 0
}

/// The bytes of a keyboard report: modifiers, reserved byte, six keycodes.
pub open spec fn keyboard_bytes(r: KeyboardReport) -> Seq<u8> {
    seq![r.modifiers, r.reserved] + r.keycodes@
}

proof fn lemma_pressed_keycodes_prefix(buttons_bitmask: u16, n: int, m: int)
    requires
        0 <= n <= m,
    ensures
        pressed_keycodes(buttons_bitmask, n).len() <= pressed_keycodes(buttons_bitmask, m).len(),
        forall|j: int| 0 <= j < pressed_keycodes(buttons_bitmask, n).len() ==>
            #[trigger] pressed_keycodes(buttons_bitmask, m)[j] == pressed_keycodes(buttons_bitmask, n)[j],
    decreases m - n,
{
    if m > n {
        lemma_pressed_keycodes_prefix(buttons_bitmask, n, m - 1);
    }
}

impl KeyboardReport {
    /// Builds a keyboard report from the 16-bit keypad button mask: the
    /// keycodes of the pressed buttons in button order, at most six, the
    /// remaining slots 0; no modifier.
    pub fn from_buttons_bitmask(buttons_bitmask: u16) -> (r: KeyboardReport)
        ensures
            r.modifiers == 0,
            r.reserved == 0,
            r.keycodes@ == keycode_slots(pressed_keycodes(buttons_bitmask, 16)),
    {
        let mut keycodes = [0u8; 6];
        let mut count: usize = 0;
        let mut index: usize = 0;
        while index < 16
            invariant
                index <= 16,
                count <= 6,
                keycodes@.len() == 6,
                count == if pressed_keycodes(buttons_bitmask, index as int).len() < 6 {
                    pressed_keycodes(buttons_bitmask, index as int).len()
                } else {
                    6
                },
                forall|j: int| 0 <= j < 6 ==> #[trigger] keycodes@[j] == keycode_slots(
                    pressed_keycodes(buttons_bitmask, index as int),
                )[j],
            decreases 16 - index,
        {
            let keycode = MACROPAD_KEYCODES[index];
            let k: u16 = index as u16;
            let pressed = (buttons_bitmask & (1u16 << k)) != 0;
            proof {
                assert(pressed == key_bit(buttons_bitmask, index as int)) by {
                    assert(((buttons_bitmask & (1u16 << k)) != 0u16) == ((buttons_bitmask >> k) & 1u16 == 1u16))
                        by (bit_vector)
                        requires
                            k < 16,
                    ;
                }
                lemma_pressed_keycodes_prefix(buttons_bitmask, index as int, index as int + 1);
            }
            if pressed && count < 6 {
                keycodes[count] = keycode;
                count = count + 1;
            }
            index = index + 1;
        }
        assert(keycodes@ =~= keycode_slots(pressed_keycodes(buttons_bitmask, 16)));
        KeyboardReport { modifiers: 0, reserved: 0, keycodes }
    }

    /// Whether any key is pressed: a modifier or a nonzero keycode.
    pub fn has_pressed_keys(&self) -> (r: bool)
        ensures
            r == report_has_keys(*self),
    {
        if self.modifiers != 0 {
            return true;
        }
        let mut j: usize = 0;
        while j < 6
            invariant
                j <= 6,
                self.modifiers == 0,
                forall|i: int| 0 <= i < j ==> #[trigger] self.keycodes@[i] == 0,
            decreases 6 - j,
        {
            if self.keycodes[j] != 0 {
                return true;
            }
            j = j + 1;
        }
        false
    }

    /// Serializes the report into 8 bytes for USB HID transmission.
    pub fn to_bytes(&self) -> (b: [u8; 8])
        ensures
            b@ == keyboard_bytes(*self),
    {
        let b = [
            self.modifiers,
            self.reserved,
            self.keycodes[0],
            self.keycodes[1],
            self.keycodes[2],
            self.keycodes[3],
            self.keycodes[4],
            self.keycodes[5],
        ];
        assert(b@ =~= keyboard_bytes(*self));
        b
    }
}

impl PartialEq for KeyboardReport {
    fn eq(&self, other: &KeyboardReport) -> (r: bool) {
        let r = self.modifiers == other.modifiers && self.reserved == other.reserved
            && self.keycodes[0] == other.keycodes[0] && self.keycodes[1] == other.keycodes[1]
            && self.keycodes[2] == other.keycodes[2] && self.keycodes[3] == other.keycodes[3]
            && self.keycodes[4] == other.keycodes[4] && self.keycodes[5] == other.keycodes[5];
        proof {
            if r {
                assert(self.keycodes@ =~= other.keycodes@);
            }
        }
        r
    }
}

impl vstd::std_specs::cmp::PartialEqSpecImpl for KeyboardReport {
    open spec fn obeys_eq_spec() -> bool {
        true
    }

    open spec fn eq_spec(&self, other: &KeyboardReport) -> bool {
        self.modifiers == other.modifiers && self.reserved == other.reserved && self.keycodes@
            == other.keycodes@
    }
}

impl KeyboardReport {
    /// Whether this is the empty report: no modifier and no key.
    pub open spec fn is_empty_report(self) -> bool {
        self.modifiers == 0 && self.reserved == 0 && self.keycodes@ == Seq::new(6, |j: int| 0u8)
    }
}

impl Default for KeyboardReport {
    /// The empty report: no modifier and no key.
    fn default() -> (r: KeyboardReport)
        ensures
            r.is_empty_report(),
    {
        let r = KeyboardReport { modifiers: 0, reserved: 0, keycodes: [0u8; 6] };
        assert(r.keycodes@ =~= Seq::new(6, |j: int| 0u8));
        r
    }
}

/// A 16-bit value is 0 exactly when none of its bits is set.
proof fn lemma_zero_iff_no_bits(m: u16)
    ensures
        (m == 0) == ((m >> 0u16) & 1u16 != 1u16 && (m >> 1u16) & 1u16 != 1u16 && (m >> 2u16) & 1u16 != 1u16 && (m >> 3u16) & 1u16 != 1u16 && (m >> 4u16) & 1u16 != 1u16 && (m >> 5u16) & 1u16 != 1u16 && (m >> 6u16) & 1u16 != 1u16 && (m >> 7u16) & 1u16 != 1u16 && (m >> 8u16) & 1u16 != 1u16 && (m >> 9u16) & 1u16 != 1u16 && (m >> 10u16) & 1u16 != 1u16 && (m >> 11u16) & 1u16 != 1u16 && (m >> 12u16) & 1u16 != 1u16 && (m >> 13u16) & 1u16 != 1u16 && (m >> 14u16) & 1u16 != 1u16 && (m >> 15u16) & 1u16 != 1u16),
{
    assert((m == 0) == ((m >> 0u16) & 1u16 != 1u16 && (m >> 1u16) & 1u16 != 1u16 && (m >> 2u16) & 1u16 != 1u16 && (m >> 3u16) & 1u16 != 1u16 && (m >> 4u16) & 1u16 != 1u16 && (m >> 5u16) & 1u16 != 1u16 && (m >> 6u16) & 1u16 != 1u16 && (m >> 7u16) & 1u16 != 1u16 && (m >> 8u16) & 1u16 != 1u16 && (m >> 9u16) & 1u16 != 1u16 && (m >> 10u16) & 1u16 != 1u16 && (m >> 11u16) & 1u16 != 1u16 && (m >> 12u16) & 1u16 != 1u16 && (m >> 13u16) & 1u16 != 1u16 && (m >> 14u16) & 1u16 != 1u16 && (m >> 15u16) & 1u16 != 1u16)) by (bit_vector);
}

proof fn lemma_no_pressed_keycodes(m: u16, n: int)
    requires
        0 <= n <= 16,
    ensures
        (pressed_keycodes(m, n).len() == 0) == (forall|i: int| 0 <= i < n ==> !#[trigger] key_bit(m, i)),
    decreases n,
{
    if n > 0 {
        lemma_no_pressed_keycodes(m, n - 1);
        if pressed_keycodes(m, n).len() == 0 {
            assert forall|i: int| 0 <= i < n implies !#[trigger] key_bit(m, i) by {
                if i < n - 1 {
                    lemma_pressed_keycodes_prefix(m, n - 1, n);
                }
            }
        }
    }
}

proof fn lemma_pressed_keycodes_nonzero(m: u16, n: int)
    requires
        0 <= n <= 16,
    ensures
        forall|j: int| 0 <= j < pressed_keycodes(m, n).len() ==> #[trigger] pressed_keycodes(m, n)[j] != 0,
    decreases n,
{
    if n > 0 {
        lemma_pressed_keycodes_nonzero(m, n - 1);
        let prev = pressed_keycodes(m, n - 1);
        assert(MACROPAD_KEYCODES[n - 1] != 0);
        assert forall|j: int| 0 <= j < pressed_keycodes(m, n).len() implies #[trigger] pressed_keycodes(m, n)[j] != 0 by {
            if j < prev.len() {
                assert(pressed_keycodes(m, n)[j] == prev[j]);
            }
        }
    }
}

/// The report built from a button mask carries a pressed key exactly when
/// some button of the mask is pressed.
pub proof fn lemma_report_has_keys_iff_buttons(m: u16, r: KeyboardReport)
    requires
        r.modifiers == 0,
        r.keycodes@ == keycode_slots(pressed_keycodes(m, 16)),
    ensures
        report_has_keys(r) == (m != 0),
{
    lemma_zero_iff_no_bits(m);
    lemma_no_pressed_keycodes(m, 16);
    lemma_pressed_keycodes_nonzero(m, 16);
    if m != 0 {
        assert(pressed_keycodes(m, 16).len() != 0) by {
            if pressed_keycodes(m, 16).len() == 0 {
                assert(!key_bit(m, 0));
                assert(!key_bit(m, 1));
                assert(!key_bit(m, 2));
                assert(!key_bit(m, 3));
                assert(!key_bit(m, 4));
                assert(!key_bit(m, 5));
                assert(!key_bit(m, 6));
                assert(!key_bit(m, 7));
                assert(!key_bit(m, 8));
                assert(!key_bit(m, 9));
                assert(!key_bit(m, 10));
                assert(!key_bit(m, 11));
                assert(!key_bit(m, 12));
                assert(!key_bit(m, 13));
                assert(!key_bit(m, 14));
                assert(!key_bit(m, 15));
            }
        }
        assert(r.keycodes@[0] != 0);
    } else {
        assert forall|i: int| 0 <= i < 16 implies !#[trigger] key_bit(m, i) by {
            lemma_zero_bits(i as u16);
        }
        assert forall|j: int| 0 <= j < 6 implies #[trigger] r.keycodes@[j] == 0 by {}
    }
}


/// The keyboard report descriptor declares exactly the 8 bytes that
/// `to_bytes` produces.
pub proof fn lemma_keyboard_descriptor_matches_report(r: KeyboardReport)
    ensures
        input_report_bits(KEYBOARD_REPORT_DESCRIPTOR@) == 8 * keyboard_bytes(r).len(),
{
    reveal_with_fuel(input_bits_from, 32);
}

/// Two keyboard reports with the same bytes are the same report.
pub proof fn lemma_keyboard_bytes_injective(a: KeyboardReport, b: KeyboardReport)
    requires
        keyboard_bytes(a) == keyboard_bytes(b),
    ensures
        a == b,
{
    broadcast use vstd::array::group_array_axioms;
    assert(keyboard_bytes(a)[0] == a.modifiers && keyboard_bytes(a)[1] == a.reserved);
    assert(keyboard_bytes(b)[0] == b.modifiers && keyboard_bytes(b)[1] == b.reserved);
    assert(a.keycodes@ =~= keyboard_bytes(a).subrange(2, 8));
    assert(b.keycodes@ =~= keyboard_bytes(b).subrange(2, 8));
    assert(a.keycodes =~= b.keycodes);
    assert(a.keycodes == b.keycodes);
    assert(a.modifiers == b.modifiers && a.reserved == b.reserved);
}

} // verus!

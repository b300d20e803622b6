//! The decisions of the controller's polling loop: profile switching by
//! shortcut, the joystick-mode switch button, which buttons reach the host,
//! and when keyboard and mouse reports are sent.

use vstd::prelude::*;
use crate::joystick::ActiveJoystick;
use crate::keyboard::KeyboardReport;
use crate::matrix::{key_bit, next_counter, next_level, KeyEvent};
use crate::mouse::{mouse_active, MouseReport};
use crate::profile::ControllerProfile;

verus! {

/// An edge of the debounced switch button.
#[derive(Debug, Clone, Copy, PartialEq, Eq, Structural)]
pub enum ButtonEdge {
    /// No change.
    Unchanged,
    /// The button went down.
    Pressed,
    /// The button went up.
    Released,
}

/// Software debouncing of a single push button, with the same counting
/// scheme as the key matrix: the held state follows the raw reading once
/// it has differed for two consecutive polls.
#[derive(Debug, Clone, Copy, PartialEq, Eq, Structural)]
pub struct DebouncedButton {
    held: bool,
    counter: u8,
}

impl DebouncedButton {
    /// The debounced held state.
    pub closed spec fn spec_held(self) -> bool {
        self.held
    }

    /// The number of consecutive polls that differed from the held state.
    pub closed spec fn spec_counter(self) -> u8 {
        self.counter
    }

    /// A released button.
    pub fn new() -> (b: DebouncedButton)
        ensures
            !b.spec_held(),
            b.spec_counter() == 0,
    {
        DebouncedButton { held: false, counter: 0 }
    }

    /// Applies one raw reading (`true` while the contact is closed) and
    /// reports the edge of the debounced state, if any.
    pub fn update(&mut self, raw_pressed: bool) -> (edge: ButtonEdge)
        ensures
            final(self).spec_held() == next_level(raw_pressed, old(self).spec_held(), old(self).spec_counter(), 2),
            final(self).spec_counter() == next_counter(raw_pressed, old(self).spec_held(), old(self).spec_counter(), 2),
            edge == if final(self).spec_held() == old(self).spec_held() {
                ButtonEdge::Unchanged
            } else if final(self).spec_held() {
                ButtonEdge::Pressed
            } else {
                ButtonEdge::Released
            },
    {
        if raw_pressed != self.held {
            let c = self.counter.saturating_add(1);
            if c >= 2 {
                self.counter = 0;
                self.held = raw_pressed;
                if raw_pressed {
                    ButtonEdge::Pressed
                } else {
                    ButtonEdge::Released
                }
            } else {
                self.counter = c;
                ButtonEdge::Unchanged
            }
        } else {
            self.counter = 0;
            ButtonEdge::Unchanged
        }
    }

    /// Whether the button is held down after debouncing.
    pub fn is_held(&self) -> (r: bool)
        ensures
            r == self.spec_held(),
    {
        self.held
    }
}

/// What has to be sent after a profile switch to clear the interfaces of
/// the profile that became inactive.
#[derive(Debug, Clone, Copy, PartialEq, Eq, Structural)]
pub enum ShortcutAction {
    /// No switch happened.
    NoSwitch,
    /// Switched to FarmSim: send an empty keyboard report and an idle mouse
    /// report.
    ClearKeyboardAndMouse,
    /// Switched to Macropad: send a neutral gamepad report.
    ClearGamepad,
}

/// What to send on the mouse interface in this poll.
#[derive(Debug, Clone, Copy, PartialEq, Eq, Structural)]
pub enum MouseAction {
    /// Nothing.
    Idle,
    /// The report that was built.
    Send,
    /// One idle report, to reset the host's deltas after activity stopped.
    SendRelease,
}

/// Whether an event is the profile-switch shortcut key: a press of button 4,
/// which is either the fourth key of the first row (index 3), the first
/// key of the second row (index 4), or the key labelled '4'.
pub open spec fn is_shortcut_event(e: KeyEvent) -> bool {
    match e {
        KeyEvent::Pressed { index, key, .. } => index == 3 || index == 4 || key == '4',
        KeyEvent::Released { .. } => false,
    }
}

/// Whether a list of events holds the shortcut key.
pub open spec fn has_shortcut(events: Seq<KeyEvent>) -> bool {
    exists|i: int| 0 <= i < events.len() && #[trigger] is_shortcut_event(events[i])
}

/// Whether to send a keyboard report, and the state after offering it: it
/// is sent when it differs from the one last sent, and becomes the last one.
pub open spec fn keyboard_step(s: ControllerState, report: KeyboardReport) -> (bool, ControllerState) {
    (report != s.last_kbd_report, ControllerState { last_kbd_report: report, ..s })
}

/// The mouse action and the new "last report was active" flag.
pub open spec fn mouse_step(last_active: bool, active: bool) -> (MouseAction, bool) {
    if active {
        (MouseAction::Send, true)
    } else if last_active {
        (MouseAction::SendRelease, false)
    } else {
        (MouseAction::Idle, false)
    }
}

/// The button mask that reaches the host: while the switch button is held,
/// buttons 4 and 5 (bits 3 and 4, the shortcut keys) are suppressed.
pub open spec fn active_buttons_spec(buttons_bitmask: u16, switch_held: bool, i: int) -> bool {
    key_bit(buttons_bitmask, i) && !(switch_held && (i == 3 || i == 4))
}

/// Suppresses the shortcut buttons (bits 3 and 4) while the switch button
/// is held, so that they do not fire unwanted actions.
pub fn active_buttons(buttons_bitmask: u16, switch_held: bool) -> (r: u16)
    ensures
        forall|i: int| 0 <= i < 16 ==> #[trigger] key_bit(r, i) == active_buttons_spec(buttons_bitmask, switch_held, i),
        !switch_held ==> r == buttons_bitmask,
        forall|i: int| 0 <= i < 16 && #[trigger] key_bit(r, i) ==> key_bit(buttons_bitmask, i),
        switch_held ==> !key_bit(r, 3) && !key_bit(r, 4),
        forall|i: int| 0 <= i < 16 && i != 3 && i != 4 ==> #[trigger] key_bit(r, i) == key_bit(buttons_bitmask, i),
{
    proof {
        assert forall|i: int| 0 <= i < 16 implies
            (active_buttons_spec(buttons_bitmask, switch_held, i) ==> key_bit(buttons_bitmask, i))
            && (switch_held && (i == 3 || i == 4) ==> !active_buttons_spec(buttons_bitmask, switch_held, i))
            && (i != 3 && i != 4 ==> active_buttons_spec(buttons_bitmask, switch_held, i) == key_bit(buttons_bitmask, i))
        by {
            lemma_active_buttons_meaning(buttons_bitmask, switch_held, i);
        }
    }
    if switch_held {
        let r = buttons_bitmask & !((1u16 << 3u16) | (1u16 << 4u16));
        proof {
            assert forall|i: int| 0 <= i < 16 implies #[trigger] key_bit(r, i) == active_buttons_spec(buttons_bitmask, switch_held, i) by {
                let j = i as u16;
                assert((((buttons_bitmask & !((1u16 << 3u16) | (1u16 << 4u16))) >> j) & 1u16 == 1u16) == (
                    (buttons_bitmask >> j) & 1u16 == 1u16 && !(j == 3 || j == 4))) by (bit_vector)
                    requires
                        j < 16,
                ;
            }
        }
        r
    } else {
        buttons_bitmask
    }
}

/// The state that the controller's polling loop carries from one poll to
/// the next.
#[derive(Debug, Clone, Copy, PartialEq, Eq)]
pub struct ControllerState {
    /// The active profile.
    pub profile: ControllerProfile,
    /// The virtual joystick that the stick drives in the FarmSim profile.
    pub active_joystick: ActiveJoystick,
    /// Whether the switch button has been used for a shortcut since it went
    /// down.
    pub shortcut_triggered: bool,
    /// The keyboard report last sent.
    pub last_kbd_report: KeyboardReport,
    /// Whether the mouse report last sent had activity.
    pub last_mouse_had_activity: bool,
}

impl ControllerState {
    /// The start-up state: FarmSim profile, joystick 1, no shortcut, an empty
    /// keyboard report and an idle mouse.
    pub fn new() -> (s: ControllerState)
        ensures
            s.profile == ControllerProfile::FarmSim,
            s.active_joystick == ActiveJoystick::Joystick1,
            !s.shortcut_triggered,
            s.last_kbd_report.is_empty_report(),
            !s.last_mouse_had_activity,
    {
        ControllerState {
            profile: ControllerProfile::FarmSim,
            active_joystick: ActiveJoystick::Joystick1,
            shortcut_triggered: false,
            last_kbd_report: KeyboardReport::default(),
            last_mouse_had_activity: false,
        }
    }

    /// Handles the profile-switch shortcut (switch button held and button 4
    /// pressed): on the first shortcut event of the poll the profile
    /// toggles and the shortcut is marked as used; switching to FarmSim
    /// also forgets the last keyboard and mouse reports. Returns what must
    /// be sent to clear the profile that became inactive.
    pub fn handle_shortcut(&mut self, switch_held: bool, events: &[KeyEvent]) -> (action: ShortcutAction)
        ensures
            !(switch_held && has_shortcut(events@)) ==> action == ShortcutAction::NoSwitch && *final(self) == *old(self),
            !(switch_held && exists|k: int| 0 <= k < events@.len() && (#[trigger] events@[k] matches KeyEvent::Pressed { index, key, .. } && (
                index == 3 || index == 4 || key == '4'))) ==> action == ShortcutAction::NoSwitch
                && *final(self) == *old(self),
            switch_held && (exists|k: int| 0 <= k < events@.len() && (#[trigger] events@[k] matches KeyEvent::Pressed { index, key, .. } && (
                index == 3 || index == 4 || key == '4'))) ==> final(self).profile == old(self).profile.toggled()
                && final(self).shortcut_triggered,
            switch_held && has_shortcut(events@) ==> {
                &&& final(self).profile == old(self).profile.toggled()
                &&& final(self).shortcut_triggered
                &&& final(self).active_joystick == old(self).active_joystick
                &&& final(self).profile == ControllerProfile::FarmSim ==> {
                    &&& action == ShortcutAction::ClearKeyboardAndMouse
                    &&& final(self).last_kbd_report.is_empty_report()
                    &&& !final(self).last_mouse_had_activity
                }
                &&& final(self).profile == ControllerProfile::Macropad ==> {
                    &&& action == ShortcutAction::ClearGamepad
                    &&& final(self).last_kbd_report == old(self).last_kbd_report
                    &&& final(self).last_mouse_had_activity == old(self).last_mouse_had_activity
                }
            },
    {
        proof {
            lemma_shortcut_is_button4_press(events@);
        }
        if !switch_held {
            return ShortcutAction::NoSwitch;
        }
        let mut i: usize = 0;
        while i < events.len()
            invariant
                i <= events@.len(),
                switch_held,
                *self == *old(self),
                forall|j: int| 0 <= j < i ==> !#[trigger] is_shortcut_event(events@[j]),
            decreases events@.len() - i,
        {
            let ev = events[i];
            let hit = match ev {
                KeyEvent::Pressed { index, key, .. } => index == 3 || index == 4 || key == '4',
                KeyEvent::Released { .. } => false,
            };
            if hit {
                assert(is_shortcut_event(events@[i as int]));
                self.profile.toggle();
                self.shortcut_triggered = true;
                match self.profile {
                    ControllerProfile::FarmSim => {
                        self.last_kbd_report = KeyboardReport::default();
                        self.last_mouse_had_activity = false;
                        return ShortcutAction::ClearKeyboardAndMouse;
                    },
                    ControllerProfile::Macropad => {
                        return ShortcutAction::ClearGamepad;
                    },
                }
            }
            i = i + 1;
        }
        ShortcutAction::NoSwitch
    }

    /// Handles the release of the switch button: after a shortcut the
    /// release only ends it; otherwise, in the FarmSim profile, a tap
    /// toggles between joystick 1 and joystick 2. Returns whether the
    /// joystick was toggled.
    pub fn on_switch_released(&mut self) -> (toggled: bool)
        ensures
            old(self).shortcut_triggered ==> !toggled && *final(self) == (ControllerState {
                shortcut_triggered: false,
                ..*old(self)
            }),
            !old(self).shortcut_triggered && old(self).profile == ControllerProfile::FarmSim ==> toggled
                && *final(self) == (ControllerState {
                active_joystick: old(self).active_joystick.toggled(),
                ..*old(self)
            }),
            !old(self).shortcut_triggered && old(self).profile == ControllerProfile::Macropad ==> !toggled
                && *final(self) == *old(self),
    {
        if self.shortcut_triggered {
            self.shortcut_triggered = false;
            false
        } else if self.profile == ControllerProfile::FarmSim {
            self.active_joystick.toggle();
            true
        } else {
            false
        }
    }

    /// Whether the mouse holds its middle button: the switch button is held
    /// and has not been used for a shortcut.
    pub fn middle_click(&self, switch_held: bool) -> (r: bool)
        ensures
            r == (switch_held && !self.shortcut_triggered),
    {
        switch_held && !self.shortcut_triggered
    }

    /// Whether the keyboard report must be sent: only when it differs from
    /// the one last sent, which it then replaces.
    pub fn keyboard_report_changed(&mut self, report: KeyboardReport) -> (send: bool)
        ensures
            (send, *final(self)) == keyboard_step(*old(self), report),
    {
        let same = report.eq(&self.last_kbd_report);
        proof {
            broadcast use vstd::array::group_array_axioms;
            if same {
                assert(report.keycodes =~= self.last_kbd_report.keycodes);
            }
        }
        let send = !same;
        if send {
            self.last_kbd_report = report;
        }
        send
    }

    /// Decides what to send on the mouse interface: the report while it has
    /// activity, one idle report when activity has just stopped, nothing
    /// otherwise.
    pub fn mouse_action(&mut self, report: &MouseReport) -> (action: MouseAction)
        ensures
            (action, final(self).last_mouse_had_activity) == mouse_step(
                old(self).last_mouse_had_activity,
                mouse_active(*report),
            ),
            *final(self) == (ControllerState {
                last_mouse_had_activity: final(self).last_mouse_had_activity,
                ..*old(self)
            }),
    {
        if report.has_activity() {
            self.last_mouse_had_activity = true;
            MouseAction::Send
        } else if self.last_mouse_had_activity {
            self.last_mouse_had_activity = false;
            MouseAction::SendRelease
        } else {
            MouseAction::Idle
        }
    }
}

/// After activity stops, exactly one release report is sent: the next idle
/// poll sends nothing.
pub proof fn lemma_single_release(last_active: bool)
    ensures
        mouse_step(mouse_step(last_active, false).1, false).0 == MouseAction::Idle,
        mouse_step(true, false).0 == MouseAction::SendRelease,
{
}

/// A keyboard report is sent once: after `keyboard_report_changed` has
/// taken a report, offering the same report again sends nothing and leaves
/// the state as it is.
pub proof fn lemma_keyboard_report_sent_once(s: ControllerState, report: KeyboardReport)
    ensures
        ({
            let s2 = keyboard_step(s, report).1;
            keyboard_step(s2, report) == (false, s2)
        }),
{
}

/// A poll's events hold the profile-switch shortcut exactly when one of
/// them is a press of the key with index 3 or 4, or of a key labelled '4';
/// releases and presses of any other key never count.
pub proof fn lemma_shortcut_is_button4_press(events: Seq<KeyEvent>)
    ensures
        has_shortcut(events) == exists|k: int| 0 <= k < events.len() && (#[trigger] events[k] matches KeyEvent::Pressed { index, key, .. } && (
                index == 3 || index == 4 || key == '4')),
{
    if has_shortcut(events) {
        let k = choose|k: int| 0 <= k < events.len() && #[trigger] is_shortcut_event(events[k]);
        assert(events[k] matches KeyEvent::Pressed { index, key, .. } && (index == 3 || index == 4 || key == '4'));
    }
    if exists|k: int| 0 <= k < events.len() && (#[trigger] events[k] matches KeyEvent::Pressed { index, key, .. } && (
                index == 3 || index == 4 || key == '4')) {
        let k = choose|k: int| 0 <= k < events.len() && (#[trigger] events[k] matches KeyEvent::Pressed { index, key, .. } && (
                index == 3 || index == 4 || key == '4'));
        assert(is_shortcut_event(events[k]));
    }
}

/// The buttons that reach the host are pressed buttons: none is reported
/// that is not down, buttons 4 and 5 (bits 3 and 4) are never reported while
/// the switch button is held, and every other button is reported exactly
/// when it is down.
pub proof fn lemma_active_buttons_meaning(buttons_bitmask: u16, switch_held: bool, i: int)
    requires
        0 <= i < 16,
    ensures
        active_buttons_spec(buttons_bitmask, switch_held, i) ==> key_bit(buttons_bitmask, i),
        switch_held && (i == 3 || i == 4) ==> !active_buttons_spec(buttons_bitmask, switch_held, i),
        i != 3 && i != 4 ==> active_buttons_spec(buttons_bitmask, switch_held, i) == key_bit(buttons_bitmask, i),
{
}

} // verus!

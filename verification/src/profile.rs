//! Controller profiles: the FarmSim gamepad profile and the Macropad
//! keyboard/3D-mouse profile.

use vstd::prelude::*;

verus! {

/// Active controller operating profile.
#[derive(Debug, Clone, Copy, PartialEq, Eq, Structural)]
pub enum ControllerProfile {
    /// FarmSim profile (HID joystick with two virtual modes and 16 buttons).
    FarmSim,
    /// Macropad and 3D profile (F13..F24 keys and relative mouse look-around).
    Macropad,
}

impl ControllerProfile {
    /// The other profile.
    pub open spec fn toggled(self) -> ControllerProfile {
        match self {
            ControllerProfile::FarmSim => ControllerProfile::Macropad,
            ControllerProfile::Macropad => ControllerProfile::FarmSim,
        }
    }

    /// The text that `label` returns for this profile.
    pub open spec fn label_text(self) -> Seq<char> {
        match self {
            ControllerProfile::FarmSim => "FARMSIM (Joystick & Buttons)"@,
            ControllerProfile::Macropad => "MACROPAD (F13-F24 & 3D Look)"@,
        }
    }

    /// Switches to the other profile and returns the new one.
    pub fn toggle(&mut self) -> (r: ControllerProfile)
        ensures
            *final(self) == old(self).toggled(),
            r == *final(self),
    {
        *self = match *self {
            ControllerProfile::FarmSim => ControllerProfile::Macropad,
            ControllerProfile::Macropad => ControllerProfile::FarmSim,
        };
        *self
    }

    /// Returns a human-readable name of the profile.
    pub fn label(&self) -> (r: &'static str)
        ensures
            r@ == self.label_text(),
    {
        match self {
            ControllerProfile::FarmSim => "FARMSIM (Joystick & Buttons)",
            ControllerProfile::Macropad => "MACROPAD (F13-F24 & 3D Look)",
        }
    }
}

impl Default for ControllerProfile {
    /// The FarmSim profile.
    fn default() -> (r: ControllerProfile)
        ensures
            r == ControllerProfile::FarmSim,
    {
        ControllerProfile::FarmSim
    }
}

/// Toggling twice gives back the profile one started from.
pub proof fn lemma_toggle_twice(p: ControllerProfile)
    ensures
        p.toggled().toggled() == p,
{
}

/// Toggling always changes the profile.
pub proof fn lemma_toggle_changes(p: ControllerProfile)
    ensures
        p.toggled() != p,
{
}

} // verus!

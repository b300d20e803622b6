//! Report building, debouncing and profile logic for a USB HID controller
//! with a 3-axis joystick and a 4x4 key matrix.

pub mod gamepad;
pub mod joystick;
pub mod profile;
pub mod matrix;
pub mod keyboard;
pub mod mouse;
pub mod controller;
pub mod descriptor;

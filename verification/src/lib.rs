//! Control logic of a bench power-supply front panel.
//!
//! Key presses drive a small command interpreter; completed commands and the
//! output switch update the device state, from which the PWM set-point and
//! the two display lines are derived.

pub mod text;
pub mod interface;
pub mod keymap;
pub mod keypad;
pub mod state;
pub mod idle;
pub mod display;

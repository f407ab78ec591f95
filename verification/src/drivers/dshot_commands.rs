//! Special DShot commands, sent as throttle values below 48 while the motor is
//! stopped. They must be repeated (typically ten times) to take effect.

use vstd::prelude::*;

verus! {

pub const MOTOR_STOP: u16 = 0;

pub const BEACON1: u16 = 1;

pub const BEACON2: u16 = 2;

pub const BEACON3: u16 = 3;

pub const BEACON4: u16 = 4;

pub const BEACON5: u16 = 5;

pub const ESC_INFO: u16 = 6;

pub const SPIN_DIRECTION_NORMAL: u16 = 20;

pub const SPIN_DIRECTION_REVERSED: u16 = 21;

pub const SIGNAL_LINE_TELEMETRY_DISABLE: u16 = 32;

pub const SIGNAL_LINE_TELEMETRY_ENABLE: u16 = 33;

} // verus!

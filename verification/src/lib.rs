//! Verified core of a quadcopter flight controller: wire formats, sensor
//! register protocols, and the decisions its tasks take on every tick.

pub mod bytes;
pub mod counter;
pub mod drivers;
pub mod flight;
pub mod float_bits;
pub mod motor_test;
pub mod mpc_bench;
pub mod persist;
pub mod plant_capture;
pub mod plant_log;
pub mod ratio;
pub mod text;
pub mod usart;

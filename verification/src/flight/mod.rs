//! Decisions of the flight tasks: what to do with each sample, command and
//! moment in time. Filters and controllers are asked for; they do not live here.

pub mod attitude;
pub mod baro_recovery;
pub mod blink;
pub mod fusion;
pub mod gps_accel;
pub mod gps_feed;
pub mod imu_read;
pub mod inner_loop;
pub mod navigation;

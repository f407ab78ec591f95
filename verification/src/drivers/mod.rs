//! Device protocols: frame encoders, byte-stream parsers and register sequences.

pub mod axes;
pub mod baro;
pub mod bring_up;
pub mod crsf;
pub mod dshot;
pub mod dshot_bb_decode;
pub mod dshot_bb_frame;
pub mod dshot_bitbang;
pub mod dshot_commands;
pub mod dshot_diag;
pub mod dshot_frame;
pub mod dshot_hw;
pub mod dshot_telemetry;
pub mod gps_adapt;
pub mod gps_number;
pub mod hmc5883l;
pub mod icm42688;
pub mod ism6hg256x;
pub mod ist8310;
pub mod lis2mdl;
pub mod mag;
pub mod mpu6000;
pub mod nmea;
pub mod orientation;
pub mod qmc5883l;
pub mod qmc5883p;
pub mod throttle;
pub mod ubx;
pub mod ubx_config;
pub mod ubx_search;
pub mod wt901b;
pub mod wt901b_config;

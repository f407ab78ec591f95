//! The persisted configuration: its record and the flash sector it lives in.

pub mod flash;
pub mod record;

//! Configuration commands of the WT901B.

use crate::drivers::wt901b;
use crate::drivers::wt901b::write_command;
use vstd::prelude::*;

verus! {

/// Sets the output rate: 0x06 is 10 Hz, 0x07 20 Hz, 0x08 50 Hz, 0x09 100 Hz,
/// 0x0B 200 Hz.
pub fn set_output_rate(rate_code: u8) -> (cmd: [u8; 5])
    ensures
        cmd@ == wt901b::command(0x03, rate_code as u16),
{
    write_command(0x03, rate_code as u16)
}

/// Sets the baud rate: 0x02 is 9600, 0x06 115200, 0x07 230400.
pub fn set_baud_rate(baud_code: u8) -> (cmd: [u8; 5])
    ensures
        cmd@ == wt901b::command(0x04, baud_code as u16),
{
    write_command(0x04, baud_code as u16)
}

/// Sets which packets are sent, one bit each: 0 time, 1 acceleration, 2 angular
/// velocity, 3 angle, 4 magnetic, 5 port, 6 barometer, 9 quaternion.
pub fn set_output_content(flags: u16) -> (cmd: [u8; 5])
    ensures
        cmd@ == wt901b::command(0x02, flags),
{
    write_command(0x02, flags)
}

/// Heading from the gyros alone.
pub fn set_6axis_mode() -> (cmd: [u8; 5])
    ensures
        cmd@ == wt901b::command(0x24, 1),
{
    write_command(0x24, 0x0001)
}

/// Heading fused with the magnetic field.
pub fn set_9axis_mode() -> (cmd: [u8; 5])
    ensures
        cmd@ == wt901b::command(0x24, 0),
{
    write_command(0x24, 0x0000)
}

/// Sets the bandwidth: 0x00 is 256 Hz, 0x01 188 Hz, 0x02 98 Hz, 0x03 42 Hz, 0x04
/// 20 Hz.
pub fn set_bandwidth(bw_code: u8) -> (cmd: [u8; 5])
    ensures
        cmd@ == wt901b::command(0x1F, bw_code as u16),
{
    write_command(0x1F, bw_code as u16)
}

} // verus!

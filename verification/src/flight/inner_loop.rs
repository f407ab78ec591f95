//! The fast loop between the inertial sensors and the motors.

use vstd::prelude::*;

verus! {

/// What navigation asks of the fast loop. Quantities are single-precision
/// patterns.
#[derive(Clone, Copy, Debug, PartialEq, Eq)]
pub struct OuterLoopCommand {
    /// Collective thrust, 0 to 1.
    pub thrust: u32,
    /// Rates to hold, °/s.
    pub rate_sp_degs: [u32; 3],
    pub armed: bool,
}

/// Thrust that first enables airmode after arming: 0.05.
pub const AIRMODE_ACTIVATE_THROTTLE: u32 = 0x3D4C_CCCD;

impl OuterLoopCommand {
    /// No thrust, no rates, disarmed.
    pub fn idle() -> (c: Self)
        ensures
            c.thrust == 0,
            c.rate_sp_degs@ == seq![0u32, 0u32, 0u32],
            !c.armed,
    {
        let c = OuterLoopCommand { thrust: 0, rate_sp_degs: [0; 3], armed: false };
        assert(c.rate_sp_degs@ =~= seq![0u32, 0u32, 0u32]);
        c
    }
}

/// What the motors get.
#[derive(Clone, Copy, Debug, PartialEq, Eq, Structural)]
pub enum Drive {
    /// Stop; the rate controller rests.
    Stop,
    /// Thrust alone; the rate controller rests.
    Collective,
    /// Thrust and the rate controller's torques.
    Full,
}

/// What a tick does.
pub struct DriveStep {
    pub command: OuterLoopCommand,
    pub drive: Drive,
}

/// What the motors get.
pub open spec fn drive_of(armed: bool, airmode: bool) -> Drive {
    if !armed {
        Drive::Stop
    } else if airmode {
        Drive::Full
    } else {
        Drive::Collective
    }
}

/// Takes the latest command, which is idle before the first, and whether airmode
/// is on. Torques are only commanded while armed and in airmode, so that an
/// armed craft on the ground does not spin up on stick input.
pub fn drive(latest: Option<OuterLoopCommand>, airmode: bool) -> (s: DriveStep)
    ensures
        match latest {
            Some(c) => s.command == c,
            None => s.command.thrust == 0 && !s.command.armed && s.command.rate_sp_degs@ == seq![
                0u32,
                0u32,
                0u32,
            ],
        },
        s.drive == (if !s.command.armed {
            Drive::Stop
        } else if airmode {
            Drive::Full
        } else {
            Drive::Collective
        }),
        s.drive == drive_of(s.command.armed, airmode),
{
    let command: OuterLoopCommand = match latest {
        Some(c) => c,
        None => OuterLoopCommand::idle(),
    };
    let drive: Drive = if !command.armed {
        Drive::Stop
    } else if airmode {
        Drive::Full
    } else {
        Drive::Collective
    };
    DriveStep { command, drive }
}

/// Frames between telemetry reports.
pub const TELEMETRY_LOG_FRAMES: u32 = 800;

/// Whether telemetry is reported at a frame.
pub open spec fn is_report_due(frames: u32, bidir: bool) -> bool {
    bidir && frames % TELEMETRY_LOG_FRAMES == 0
}

/// Frames sent, from the maximum to zero.
#[derive(Clone, Copy, Debug, PartialEq, Eq, Structural)]
pub struct TelemetryLog {
    pub frames: u32,
}

impl TelemetryLog {
    /// Counts a frame and says whether to report: every so many frames, if there
    /// is telemetry.
    pub fn sent(&mut self, bidir: bool) -> (report: bool)
        ensures
            final(self).frames == (if old(self).frames == u32::MAX {
                0
            } else {
                (old(self).frames + 1) as u32
            }),
            report == (bidir && final(self).frames % TELEMETRY_LOG_FRAMES == 0),
            report == is_report_due(final(self).frames, bidir),
    {
        self.frames = self.frames.wrapping_add(1);
        bidir && self.frames % TELEMETRY_LOG_FRAMES == 0
    }
}

// ---- Laws ----

/// The motors stop exactly while disarmed, and torques take both arming and airmode.
pub proof fn law_torques_take_arming_and_airmode(armed: bool, airmode: bool)
    ensures
        drive_of(armed, airmode) is Stop <==> !armed,
        drive_of(armed, airmode) is Full <==> armed && airmode,
        drive_of(armed, airmode) is Collective <==> armed && !airmode,
{
}

/// Of 800 frames in a row one is reported, where there is telemetry, and none
/// elsewhere.
pub proof fn law_one_report_in_eight_hundred(frames: u32, later: u32)
    requires
        is_report_due(frames, true),
        frames < later < frames + 800,
    ensures
        !is_report_due(later, true),
        !is_report_due(frames, false),
        frames + 800 <= u32::MAX ==> is_report_due((frames + 800) as u32, true),
{
}

} // verus!

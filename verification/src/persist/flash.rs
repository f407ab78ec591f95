//! The flash sector that holds the configuration record, and the order in
//! which it is rewritten. Rewriting happens on the ground only.

use vstd::prelude::*;

verus! {

/// Offset of the reserved sector from the start of flash.
pub const CONFIG_OFFSET: u32 = 0x1E_0000;

/// Sector size, the erase granularity.
pub const CONFIG_SECTOR_LEN: u32 = 0x2_0000;

/// Why the configuration could not be stored.
#[derive(Debug, Clone, Copy, PartialEq, Eq, Structural)]
pub enum PersistError {
    Erase,
    Write,
}

/// What is to be done next while the record is stored.
#[derive(Debug, Clone, Copy, PartialEq, Eq)]
pub enum WriteStep {
    /// Erase `[from, to)`.
    Erase { from: u32, to: u32 },
    /// Write the record at `at`.
    Write { at: u32 },
    /// Finished.
    Done { result: Result<(), PersistError> },
}

/// The step after `step`.
pub open spec fn after(step: WriteStep, ok: bool) -> WriteStep {
    match step {
        WriteStep::Erase { .. } => if ok {
            WriteStep::Write { at: CONFIG_OFFSET }
        } else {
            WriteStep::Done { result: Err(PersistError::Erase) }
        },
        WriteStep::Write { .. } => if ok {
            WriteStep::Done { result: Ok(()) }
        } else {
            WriteStep::Done { result: Err(PersistError::Write) }
        },
        WriteStep::Done { result } => step,
    }
}

/// The first step: the whole sector is erased.
pub fn write() -> (step: WriteStep)
    ensures
        step == (WriteStep::Erase {
            from: CONFIG_OFFSET,
            to: (CONFIG_OFFSET + CONFIG_SECTOR_LEN) as u32,
        }),
{
    WriteStep::Erase { from: CONFIG_OFFSET, to: CONFIG_OFFSET + CONFIG_SECTOR_LEN }
}

/// The step after `step`, given whether it succeeded. Nothing is written to a
/// sector that could not be erased.
pub fn write_next(step: WriteStep, ok: bool) -> (next: WriteStep)
    ensures
        next == (match step {
            WriteStep::Erase { .. } => if ok {
                WriteStep::Write { at: CONFIG_OFFSET }
            } else {
                WriteStep::Done { result: Err(PersistError::Erase) }
            },
            WriteStep::Write { .. } => if ok {
                WriteStep::Done { result: Ok(()) }
            } else {
                WriteStep::Done { result: Err(PersistError::Write) }
            },
            WriteStep::Done { result } => step,
        }),
        next == after(step, ok),
{
    match step {
        WriteStep::Erase { .. } => if ok {
            WriteStep::Write { at: CONFIG_OFFSET }
        } else {
            WriteStep::Done { result: Err(PersistError::Erase) }
        },
        WriteStep::Write { .. } => if ok {
            WriteStep::Done { result: Ok(()) }
        } else {
            WriteStep::Done { result: Err(PersistError::Write) }
        },
        WriteStep::Done { result } => step,
    }
}

// ---- Laws ----

/// The sector is the last 128 KiB of 2 MiB.
pub proof fn law_last_sector()
    ensures
        CONFIG_SECTOR_LEN == 128 * 1024,
        CONFIG_OFFSET + CONFIG_SECTOR_LEN == 2 * 1024 * 1024,
{
}

/// What was erased is written from its start, and storing succeeds exactly when both
/// steps do; a failure is that of the step that failed, and ends it.
pub proof fn law_erase_precedes_write(from: u32, to: u32, at: u32, ok: bool)
    ensures
        after(WriteStep::Erase { from, to }, true) == (WriteStep::Write { at: 0x1E_0000 }),
        after(WriteStep::Erase { from, to }, false) == (WriteStep::Done {
            result: Err(PersistError::Erase),
        }),
        after(WriteStep::Write { at }, true) == (WriteStep::Done { result: Ok(()) }),
        after(WriteStep::Write { at }, false) == (WriteStep::Done {
            result: Err(PersistError::Write),
        }),
        after(WriteStep::Done { result: Ok(()) }, ok) == (WriteStep::Done { result: Ok(()) }),
        after(WriteStep::Done { result: Err(PersistError::Erase) }, ok) == (WriteStep::Done {
            result: Err(PersistError::Erase),
        }),
{
}

} // verus!

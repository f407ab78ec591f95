//! iSentek IST8310 magnetometer.
//!
//! The part has no continuous mode: each sample is asked for, and the part drops
//! back to stand-by when it is done. Its output frame is left-handed (Z up), so
//! decoding negates Z; no mounting could, since those are all proper rotations.

use crate::bytes;
use crate::bytes::read_i16_le;
use crate::drivers::bring_up::Step;
use crate::drivers::mag::{MagError, MagSample, Orientation, Scale};
use vstd::prelude::*;

verus! {

/// Address with the selection pins floating.
pub const I2C_ADDR_DEFAULT: u8 = 0x0E;

pub const I2C_ADDRS: [u8; 4] = [0x0C, 0x0D, 0x0E, 0x0F];

pub const REG_WAI: u8 = 0x00;

/// Status, followed by six data registers.
pub const REG_STAT1: u8 = 0x02;

pub const REG_CNTL1: u8 = 0x0A;

pub const REG_CNTL2: u8 = 0x0B;

pub const REG_AVGCNTL: u8 = 0x41;

pub const REG_PDCNTL: u8 = 0x42;

/// The identification register reads this.
pub const WAI_VALUE: u8 = 0x10;

/// A measurement is complete; cleared by reading the data.
pub const STAT1_DRDY: u8 = 0x01;

/// A result was overwritten before it was read.
pub const STAT1_DOR: u8 = 0x02;

pub const CNTL1_STANDBY: u8 = 0x00;

/// Starts one measurement.
pub const CNTL1_SINGLE: u8 = 0x01;

/// Soft reset.
pub const CNTL2_SRST: u8 = 0x01;

pub const CNTL2_DRP_ACTIVE_HIGH: u8 = 0x04;

pub const CNTL2_DREN: u8 = 0x08;

pub const STR_SELF_TEST: u8 = 0x40;

/// Samples averaged per measurement.
#[derive(Clone, Copy, Debug, PartialEq, Eq, Structural)]
pub enum Average {
    X1,
    X2,
    X4,
    X8,
    X16,
}

impl Average {
    /// The field value.
    pub open spec fn bits(self) -> u8 {
        match self {
            Average::X1 => 0,
            Average::X2 => 1,
            Average::X4 => 2,
            Average::X8 => 3,
            Average::X16 => 4,
        }
    }

    /// The field value.
    pub fn code(self) -> (c: u8)
        ensures
            c == self.bits(),
            c < 8,
    {
        match self {
            Average::X1 => 0,
            Average::X2 => 1,
            Average::X4 => 2,
            Average::X8 => 3,
            Average::X16 => 4,
        }
    }
}

/// Averaging register: Y in bits 5:3, X and Z in 2:0.
pub fn avgcntl(y: Average, xz: Average) -> (b: u8)
    ensures
        b == 8 * y.bits() + xz.bits(),
{
    8 * y.code() + xz.code()
}

/// Normal pulse duration.
pub const PDCNTL_NORMAL: u8 = 0xC0;

/// Sixteen samples on every axis.
pub const AVGCNTL_RUN: u8 = 0x24;

pub const PDCNTL_RUN: u8 = 0xC0;

/// Time from a trigger to its result.
pub const CONVERSION_MS: u64 = 6;

/// 0.3 microtesla per count; the part has no range setting.
pub fn sens_ut_per_lsb() -> (s: Scale)
    ensures
        s == (Scale { num: 3, den: 10 }),
{
    Scale { num: 3, den: 10 }
}

/// Negation that stops at the largest number.
pub open spec fn negated(v: int) -> int {
    if v == -32768 {
        32767
    } else {
        -v
    }
}

/// The counts in six data bytes, Z negated.
pub open spec fn raw_of(buf: Seq<u8>) -> Seq<i16> {
    seq![
        bytes::twos_complement(bytes::u16_le(buf, 0), 0x8000) as i16,
        bytes::twos_complement(bytes::u16_le(buf, 2), 0x8000) as i16,
        negated(bytes::twos_complement(bytes::u16_le(buf, 4), 0x8000)) as i16,
    ]
}

/// Decodes six data bytes into counts in a right-handed frame.
pub fn decode_raw(buf: [u8; 6]) -> (raw: [i16; 3])
    ensures
        raw@ == raw_of(buf@),
{
    let x: i16 = read_i16_le(buf.as_slice(), 0);
    let y: i16 = read_i16_le(buf.as_slice(), 2);
    let up: i16 = read_i16_le(buf.as_slice(), 4);
    let z: i16 = if up == -32768 {
        32767
    } else {
        -up
    };
    let raw: [i16; 3] = [x, y, z];
    assert(raw@ =~= raw_of(buf@));
    raw
}

/// Decodes six data bytes into a sample.
pub fn decode_sample(buf: [u8; 6], orient: Orientation) -> (s: MagSample)
    ensures
        s.raw@ == raw_of(buf@),
        s.orientation == orient,
        s.scale == (Scale { num: 3, den: 10 }),
{
    MagSample::new(decode_raw(buf), sens_ut_per_lsb(), orient)
}

/// The chip.
pub struct Ist8310 {
    pub addr: u8,
    pub orientation: Orientation,
}

/// What a read of status and data amounts to.
pub enum Collected {
    /// Reading failed.
    Failed,
    /// The conversion is not finished. It must not be triggered again: that
    /// would restart it.
    NotReady,
    /// A sample; the next measurement is to be triggered.
    Sample(MagSample),
}

/// Whether a status byte reports a finished conversion.
pub open spec fn is_finished(status: u8) -> bool {
    status % 2 == 1
}

/// Whether a read of status and data amounts to something, for a mounting.
pub open spec fn is_collected(c: Collected, data: Option<Seq<u8>>, orientation: Orientation) -> bool {
    match data {
        None => c is Failed,
        Some(buf) => if is_finished(buf[0]) {
            c matches Collected::Sample(s) && s.raw@ == raw_of(buf.skip(1)) && s.orientation
                == orientation && s.scale == (Scale { num: 3, den: 10 })
        } else {
            c is NotReady
        },
    }
}

/// The configuration: reset, identity, recommended settings read back, and a
/// first measurement.
pub open spec fn setup() -> Seq<Step> {
    seq![
        Step::Write { reg: REG_CNTL2, value: CNTL2_SRST },
        Step::Wait { ms: 50 },
        Step::Identify { reg: REG_WAI, value: WAI_VALUE },
        Step::Write { reg: REG_AVGCNTL, value: AVGCNTL_RUN },
        Step::Write { reg: REG_PDCNTL, value: PDCNTL_RUN },
        Step::Confirm { reg: REG_AVGCNTL, value: AVGCNTL_RUN },
        Step::Confirm { reg: REG_PDCNTL, value: PDCNTL_RUN },
        Step::Write { reg: REG_CNTL1, value: CNTL1_SINGLE },
        Step::Wait { ms: 10 },
    ]
}

impl Ist8310 {
    /// The steps that configure the chip. They end with a result waiting.
    pub fn init() -> (steps: Vec<Step>)
        ensures
            steps@ == setup(),
    {
        let mut steps: Vec<Step> = Vec::new();
        steps.push(Step::Write { reg: REG_CNTL2, value: CNTL2_SRST });
        steps.push(Step::Wait { ms: 50 });
        steps.push(Step::Identify { reg: REG_WAI, value: WAI_VALUE });
        steps.push(Step::Write { reg: REG_AVGCNTL, value: AVGCNTL_RUN });
        steps.push(Step::Write { reg: REG_PDCNTL, value: PDCNTL_RUN });
        steps.push(Step::Confirm { reg: REG_AVGCNTL, value: AVGCNTL_RUN });
        steps.push(Step::Confirm { reg: REG_PDCNTL, value: PDCNTL_RUN });
        steps.push(Ist8310::trigger());
        steps.push(Step::Wait { ms: CONVERSION_MS + 4 });
        assert(steps@ =~= setup());
        steps
    }

    /// Starts one measurement.
    pub fn trigger() -> (s: Step)
        ensures
            s == (Step::Write { reg: REG_CNTL1, value: CNTL1_SINGLE }),
    {
        Step::Write { reg: REG_CNTL1, value: CNTL1_SINGLE }
    }

    /// Judges the status byte and six data bytes, read in one transaction.
    pub fn read(&self, data: Option<[u8; 7]>) -> (c: Collected)
        ensures
            match data {
                None => c is Failed,
                Some(buf) => if buf@[0] % 2 == 0 {
                    c is NotReady
                } else {
                    c matches Collected::Sample(s) && s.raw@ == raw_of(buf@.skip(1))
                        && s.orientation == self.orientation && s.scale == (Scale {
                        num: 3,
                        den: 10,
                    })
                },
            },
            is_collected(
                c,
                match data {
                    Some(buf) => Some(buf@),
                    None => None,
                },
                self.orientation,
            ),
    {
        match data {
            None => Collected::Failed,
            Some(buf) => {
                if buf[0] % 2 == 0 {
                    return Collected::NotReady;
                }
                let six: [u8; 6] = [buf[1], buf[2], buf[3], buf[4], buf[5], buf[6]];
                assert(six@ =~= buf@.skip(1));
                Collected::Sample(decode_sample(six, self.orientation))
            },
        }
    }

    /// What a read returns once the next measurement has been triggered, if it
    /// had to be: a sample is only handed out when the trigger went through.
    pub fn collected(c: Collected, triggered: bool) -> (r: Result<Option<MagSample>, MagError>)
        ensures
            match c {
                Collected::Failed => r == Err::<Option<MagSample>, MagError>(MagError::I2c),
                Collected::NotReady => r == Ok::<Option<MagSample>, MagError>(None),
                Collected::Sample(s) => if triggered {
                    r == Ok::<Option<MagSample>, MagError>(Some(s))
                } else {
                    r == Err::<Option<MagSample>, MagError>(MagError::I2c)
                },
            },
    {
        match c {
            Collected::Failed => Err(MagError::I2c),
            Collected::NotReady => Ok(None),
            Collected::Sample(s) => if triggered {
                Ok(Some(s))
            } else {
                Err(MagError::I2c)
            },
        }
    }
}

// ---- Laws ----

/// Decoding turns the left-handed frame into a right-handed one: X and Y keep
/// their sign, Z changes it.
pub proof fn law_decoding_mirrors_z(buf: Seq<u8>)
    requires
        buf.len() == 6,
        bytes::u16_le(buf, 4) != 0x8000,
    ensures
        raw_of(buf)[0] == bytes::twos_complement(bytes::u16_le(buf, 0), 0x8000),
        raw_of(buf)[1] == bytes::twos_complement(bytes::u16_le(buf, 2), 0x8000),
        raw_of(buf)[2] == -bytes::twos_complement(bytes::u16_le(buf, 4), 0x8000),
{
}

/// Every setting that is read back is read back after it was written.
pub proof fn law_settings_are_confirmed(i: int)
    requires
        0 <= i < setup().len(),
        setup()[i] is Confirm,
    ensures
        exists|j: int|
            0 <= j < i && #[trigger] setup()[j] == (Step::Write {
                reg: setup()[i]->Confirm_reg,
                value: setup()[i]->Confirm_value,
            }),
{
    assert(i == 5 || i == 6);
    if i == 5 {
        assert(setup()[3] == (Step::Write { reg: REG_AVGCNTL, value: AVGCNTL_RUN }));
    } else {
        assert(setup()[4] == (Step::Write { reg: REG_PDCNTL, value: PDCNTL_RUN }));
    }
}

/// What is written, in order: a reset, and after the chip has answered 10 hex sixteen
/// samples and the pulse, both read back, and a first trigger.
pub proof fn law_settings_written()
    ensures
        setup() == seq![
            Step::Write { reg: 0x0B, value: 0x01 },
            Step::Wait { ms: 50 },
            Step::Identify { reg: 0x00, value: 0x10 },
            Step::Write { reg: 0x41, value: 0x24 },
            Step::Write { reg: 0x42, value: 0xC0 },
            Step::Confirm { reg: 0x41, value: 0x24 },
            Step::Confirm { reg: 0x42, value: 0xC0 },
            Step::Write { reg: 0x0A, value: 0x01 },
            Step::Wait { ms: 10 },
        ],
{
}

/// A sample is what the chip put into its registers: two bytes an axis in two's
/// complement, least significant first, in the order X, Y, Z, the last turned over.
pub proof fn law_registers_are_read(buf: Seq<u8>, x: i16, y: i16, z: i16)
    requires
        buf.len() == 6,
        bytes::stands_in(buf, 0, bytes::written_le(x as int, 2)),
        bytes::stands_in(buf, 2, bytes::written_le(y as int, 2)),
        bytes::stands_in(buf, 4, bytes::written_le(z as int, 2)),
    ensures
        raw_of(buf)[0] == x,
        raw_of(buf)[1] == y,
        raw_of(buf)[2] == (if z == -32768 { 32767 } else { -z }),
        raw_of(buf).len() == 3,
{
    bytes::law_two_bytes_read_back(buf, 0, x as int);
    bytes::law_two_bytes_read_back(buf, 2, y as int);
    bytes::law_two_bytes_read_back(buf, 4, z as int);
}

/// Status comes before the data, and its lowest bit says whether there is a sample: X, Y
/// and Z in two bytes each, least significant first, Z turned over, 0.3 microtesla to a
/// count.
pub proof fn law_status_then_data(
    c: Collected,
    buf: Seq<u8>,
    o: Orientation,
    x: i16,
    y: i16,
    z: i16,
)
    requires
        buf.len() == 7,
        is_collected(c, Some(buf), o),
        bytes::stands_in(buf, 1, bytes::written_le(x as int, 2)),
        bytes::stands_in(buf, 3, bytes::written_le(y as int, 2)),
        bytes::stands_in(buf, 5, bytes::written_le(z as int, 2)),
    ensures
        buf[0] as int % 2 == 0 <==> c is NotReady,
        buf[0] as int % 2 == 1 <==> c is Sample,
        c matches Collected::Sample(s) ==> s.raw@[0] == x && s.raw@[1] == y && s.raw@[2] == (
        if z == -32768 {
            32767
        } else {
            -z
        }) && s.orientation == o && 10 * s.scale.num == 3 * s.scale.den,
{
    let d = buf.skip(1);
    bytes::lemma_written_2(x as int);
    bytes::lemma_written_2(y as int);
    bytes::lemma_written_2(z as int);
    assert(d.subrange(0, 2) =~= buf.subrange(1, 3));
    assert(d.subrange(2, 4) =~= buf.subrange(3, 5));
    assert(d.subrange(4, 6) =~= buf.subrange(5, 7));
    law_registers_are_read(d, x, y, z);
}

} // verus!

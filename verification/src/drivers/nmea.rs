//! NMEA 0183 GPS sentence parser.
//!
//! Four sentence types matter for flight:
//!
//!   GGA  fix quality, satellite count, altitude, HDOP
//!   RMC  position, ground speed, course, time, validity
//!   VTG  course and speed
//!   GSA  DOP values and fix mode
//!
//! Any talker ID is accepted. The checksum is the XOR of all bytes between `$`
//! and `*`.

use crate::drivers::gps_number;
use crate::drivers::gps_number::{parse_decimal, Decimal, GpsNumber};
use vstd::prelude::*;

verus! {

/// Longest sentence that is kept.
pub const MAX_SENTENCE_LEN: usize = 83;

/// GPS fix quality, from GGA.
#[derive(Debug, Clone, Copy, PartialEq, Eq, Structural)]
pub enum FixQuality {
    NoFix,
    GpsFix,
    DgpsFix,
    PpsFix,
    RtkFixed,
    RtkFloat,
    Estimated,
}

impl FixQuality {
    /// The quality a character stands for.
    pub open spec fn of_char(b: u8) -> Self {
        if b == 49 {
            FixQuality::GpsFix
        } else if b == 50 {
            FixQuality::DgpsFix
        } else if b == 51 {
            FixQuality::PpsFix
        } else if b == 52 {
            FixQuality::RtkFixed
        } else if b == 53 {
            FixQuality::RtkFloat
        } else if b == 54 {
            FixQuality::Estimated
        } else {
            FixQuality::NoFix
        }
    }

    fn from_byte(b: u8) -> (q: Self)
        ensures
            q == Self::of_char(b),
    {
        match b {
            49 => FixQuality::GpsFix,
            50 => FixQuality::DgpsFix,
            51 => FixQuality::PpsFix,
            52 => FixQuality::RtkFixed,
            53 => FixQuality::RtkFloat,
            54 => FixQuality::Estimated,
            _ => FixQuality::NoFix,
        }
    }

    pub fn has_fix(self) -> (b: bool)
        ensures
            b == (self != FixQuality::NoFix),
    {
        match self {
            FixQuality::NoFix => false,
            _ => true,
        }
    }

    /// The quality as reported in a sentence, 0 to 6.
    pub fn code(self) -> (c: u8)
        ensures
            Self::of_char((c + 48) as u8) == self,
            c <= 6,
    {
        match self {
            FixQuality::NoFix => 0,
            FixQuality::GpsFix => 1,
            FixQuality::DgpsFix => 2,
            FixQuality::PpsFix => 3,
            FixQuality::RtkFixed => 4,
            FixQuality::RtkFloat => 5,
            FixQuality::Estimated => 6,
        }
    }
}

/// Fix mode, from GSA.
#[derive(Debug, Clone, Copy, PartialEq, Eq, Structural)]
pub enum FixMode {
    NoFix,
    Fix2D,
    Fix3D,
}

impl FixMode {
    /// The mode a character stands for.
    pub open spec fn of_char(b: u8) -> Self {
        if b == 50 {
            FixMode::Fix2D
        } else if b == 51 {
            FixMode::Fix3D
        } else {
            FixMode::NoFix
        }
    }

    fn from_byte(b: u8) -> (m: Self)
        ensures
            m == Self::of_char(b),
    {
        match b {
            50 => FixMode::Fix2D,
            51 => FixMode::Fix3D,
            _ => FixMode::NoFix,
        }
    }

    /// The mode as reported in a sentence, 1 to 3.
    pub fn code(self) -> (c: u8)
        ensures
            Self::of_char((c + 48) as u8) == self,
            1 <= c <= 3,
    {
        match self {
            FixMode::NoFix => 1,
            FixMode::Fix2D => 2,
            FixMode::Fix3D => 3,
        }
    }
}

/// Parsed GPS data, updated sentence by sentence. Numbers are kept in the form
/// they were reported in.
#[derive(Debug, Clone, PartialEq, Eq)]
pub struct GpsData {
    /// Latitude in degrees, north positive (RMC, GGA).
    pub latitude: GpsNumber,
    /// Longitude in degrees, east positive (RMC, GGA).
    pub longitude: GpsNumber,
    /// Altitude above mean sea level in metres (GGA).
    pub altitude_m: GpsNumber,
    /// Ground speed in m/s (RMC, VTG).
    pub ground_speed_ms: GpsNumber,
    /// Course over ground in degrees from true north (RMC).
    pub course_deg: GpsNumber,
    /// Course over ground, true (VTG).
    pub course_true_deg: GpsNumber,
    /// Course over ground, magnetic (VTG).
    pub course_magnetic_deg: GpsNumber,
    /// Ground speed in km/h (VTG).
    pub ground_speed_kmh: GpsNumber,
    /// Fix quality (GGA).
    pub fix: FixQuality,
    /// Fix mode (GSA).
    pub fix_mode: FixMode,
    /// Satellites in use.
    pub satellites: u8,
    /// Horizontal dilution of precision (GGA, GSA).
    pub hdop: GpsNumber,
    /// Positional dilution of precision (GSA).
    pub pdop: GpsNumber,
    /// Vertical dilution of precision (GSA).
    pub vdop: GpsNumber,
    /// UTC hours (RMC).
    pub hour: u8,
    /// UTC minutes (RMC).
    pub minute: u8,
    /// UTC seconds (RMC).
    pub second: u8,
    /// RMC reports an active fix.
    pub rmc_valid: bool,
    /// Which sentences have been received.
    pub updated: u8,
}

/// The contents of a `GpsData`.
#[verifier::ext_equal]
pub struct GpsView {
    pub latitude: gps_number::NumberView,
    pub longitude: gps_number::NumberView,
    pub altitude_m: gps_number::NumberView,
    pub ground_speed_ms: gps_number::NumberView,
    pub course_deg: gps_number::NumberView,
    pub course_true_deg: gps_number::NumberView,
    pub course_magnetic_deg: gps_number::NumberView,
    pub ground_speed_kmh: gps_number::NumberView,
    pub fix: FixQuality,
    pub fix_mode: FixMode,
    pub satellites: u8,
    pub hdop: gps_number::NumberView,
    pub pdop: gps_number::NumberView,
    pub vdop: gps_number::NumberView,
    pub hour: u8,
    pub minute: u8,
    pub second: u8,
    pub rmc_valid: bool,
    pub updated: u8,
}

impl View for GpsData {
    type V = GpsView;

    open spec fn view(&self) -> GpsView {
        GpsView {
            latitude: self.latitude@,
            longitude: self.longitude@,
            altitude_m: self.altitude_m@,
            ground_speed_ms: self.ground_speed_ms@,
            course_deg: self.course_deg@,
            course_true_deg: self.course_true_deg@,
            course_magnetic_deg: self.course_magnetic_deg@,
            ground_speed_kmh: self.ground_speed_kmh@,
            fix: self.fix,
            fix_mode: self.fix_mode,
            satellites: self.satellites,
            hdop: self.hdop@,
            pdop: self.pdop@,
            vdop: self.vdop@,
            hour: self.hour,
            minute: self.minute,
            second: self.second,
            rmc_valid: self.rmc_valid,
            updated: self.updated,
        }
    }
}

pub const UPDATED_GGA: u8 = 1;

pub const UPDATED_RMC: u8 = 2;

pub const UPDATED_VTG: u8 = 4;

pub const UPDATED_GSA: u8 = 8;

/// The data before anything has been received: no fix, and DOPs of 99.9.
pub open spec fn initial_view() -> GpsView {
    let zero = gps_number::zero_view();
    let poor = gps_number::NumberView::Scaled { raw: 999, decimals: 1 };
    GpsView {
        latitude: zero,
        longitude: zero,
        altitude_m: zero,
        ground_speed_ms: zero,
        course_deg: zero,
        course_true_deg: zero,
        course_magnetic_deg: zero,
        ground_speed_kmh: zero,
        fix: FixQuality::NoFix,
        fix_mode: FixMode::NoFix,
        satellites: 0,
        hdop: poor,
        pdop: poor,
        vdop: poor,
        hour: 0,
        minute: 0,
        second: 0,
        rmc_valid: false,
        updated: 0,
    }
}

/// Whether there is a fix, given its quality and whether it is active.
pub open spec fn is_fixed(fix: FixQuality, active: bool) -> bool {
    fix != FixQuality::NoFix && active
}

impl GpsData {
    pub fn new() -> (d: Self)
        ensures
            d@ == initial_view(),
    {
        GpsData {
            latitude: GpsNumber::scaled(0, 0),
            longitude: GpsNumber::scaled(0, 0),
            altitude_m: GpsNumber::scaled(0, 0),
            ground_speed_ms: GpsNumber::scaled(0, 0),
            course_deg: GpsNumber::scaled(0, 0),
            course_true_deg: GpsNumber::scaled(0, 0),
            course_magnetic_deg: GpsNumber::scaled(0, 0),
            ground_speed_kmh: GpsNumber::scaled(0, 0),
            fix: FixQuality::NoFix,
            fix_mode: FixMode::NoFix,
            satellites: 0,
            hdop: GpsNumber::scaled(999, 1),
            pdop: GpsNumber::scaled(999, 1),
            vdop: GpsNumber::scaled(999, 1),
            hour: 0,
            minute: 0,
            second: 0,
            rmc_valid: false,
            updated: 0,
        }
    }

    /// Whether GGA reports a fix and RMC is active.
    pub fn has_fix(&self) -> (b: bool)
        ensures
            b == (self.fix != FixQuality::NoFix && self.rmc_valid),
            b == is_fixed(self.fix, self.rmc_valid),
    {
        self.fix.has_fix() && self.rmc_valid
    }

    /// Whether the altitude is valid too.
    pub fn has_3d_fix(&self) -> (b: bool)
        ensures
            b == (self.fix != FixQuality::NoFix && self.rmc_valid && self.fix_mode
                == FixMode::Fix3D),
            b == (is_fixed(self.fix, self.rmc_valid) && self.fix_mode == FixMode::Fix3D),
    {
        self.has_fix() && self.fix_mode == FixMode::Fix3D
    }

    /// Whether any of the flagged sentences has been received; clears the flags.
    pub fn was_updated(&mut self, flag: u8) -> (yes: bool)
        ensures
            yes == (old(self).updated & flag != 0),
            final(self)@ == (GpsView { updated: old(self).updated & !flag, ..old(self)@ }),
    {
        let yes: bool = self.updated & flag != 0;
        self.updated = self.updated & !flag;
        yes
    }
}

/// Recognised sentence types.
#[derive(Debug, Clone, Copy, PartialEq, Eq, Structural)]
pub enum SentenceType {
    Gga,
    Rmc,
    Vtg,
    Gsa,
}

// ---- Bytes and fields ----

/// Position of the first `b`, or the length if there is none.
pub open spec fn first_index(s: Seq<u8>, b: u8) -> nat
    decreases s.len(),
{
    if s.len() == 0 || s[0] == b {
        0
    } else {
        1 + first_index(s.skip(1), b)
    }
}

proof fn lemma_first_index(s: Seq<u8>, b: u8, k: int)
    requires
        0 <= k <= s.len(),
        forall|i: int| 0 <= i < k ==> s[i] != b,
        k == s.len() || s[k] == b,
    ensures
        first_index(s, b) == k,
    decreases s.len(),
{
    if k > 0 {
        assert forall|i: int| 0 <= i < k - 1 implies s.skip(1)[i] != b by {
            assert(s.skip(1)[i] == s[i + 1]);
        }
        lemma_first_index(s.skip(1), b, k - 1);
    }
}

fn find_byte(s: &[u8], b: u8) -> (k: usize)
    ensures
        k == first_index(s@, b),
        k <= s@.len(),
        k < s@.len() ==> s@[k as int] == b,
{
    let mut k: usize = 0;
    while k < s.len() && s[k] != b
        invariant
            k <= s@.len(),
            forall|i: int| 0 <= i < k ==> s@[i] != b,
        decreases s.len() - k,
    {
        k += 1;
    }
    proof {
        lemma_first_index(s@, b, k as int);
    }
    k
}

/// The comma-separated fields of a sentence body; there is always at least one.
pub open spec fn split_fields(s: Seq<u8>) -> Seq<Seq<u8>>
    decreases s.len(),
{
    let k = first_index(s, 44) as int;
    if k >= s.len() {
        seq![s]
    } else {
        seq![s.take(k)] + split_fields(s.skip(k + 1))
    }
}

/// Walks the comma-separated fields of a sentence body.
struct FieldIter<'a> {
    data: &'a [u8],
    pos: usize,
    done: bool,
}

impl<'a> FieldIter<'a> {
    spec fn wf(&self) -> bool {
        self.pos <= self.data@.len()
    }

    /// The fields still to come.
    spec fn rest(&self) -> Seq<Seq<u8>> {
        if self.done {
            Seq::empty()
        } else {
            split_fields(self.data@.skip(self.pos as int))
        }
    }

    fn new(data: &'a [u8]) -> (it: Self)
        ensures
            it.wf(),
            it.rest() == split_fields(data@),
    {
        assert(data@.skip(0) =~= data@);
        FieldIter { data, pos: 0, done: false }
    }

    fn next(&mut self) -> (field: Option<&'a [u8]>)
        requires
            old(self).wf(),
        ensures
            final(self).wf(),
            old(self).rest().len() == 0 ==> field is None && final(self).rest() == old(self).rest(),
            old(self).rest().len() > 0 ==> field is Some && field->0@ == old(self).rest()[0]
                && final(self).rest() == old(self).rest().skip(1),
    {
        if self.done {
            return None;
        }
        let tail: &'a [u8] = vstd::slice::slice_subrange(self.data, self.pos, self.data.len());
        assert(tail@ =~= self.data@.skip(self.pos as int));
        let k: usize = find_byte(tail, 44);
        let field: &'a [u8] = vstd::slice::slice_subrange(tail, 0, k);
        assert(field@ =~= tail@.take(k as int));
        if k < tail.len() {
            assert(tail@.skip(k + 1) =~= self.data@.skip(self.pos + k + 1));
            self.pos = self.pos + k + 1;
            assert(self.rest() =~= split_fields(tail@).skip(1));
        } else {
            assert(tail@.take(k as int) =~= tail@);
            self.done = true;
            assert(self.rest() =~= split_fields(tail@).skip(1));
        }
        Some(field)
    }
}

/// Field `k`, if there is one.
pub open spec fn field_at(f: Seq<Seq<u8>>, k: int) -> Option<Seq<u8>> {
    if 0 <= k < f.len() {
        Some(f[k])
    } else {
        None
    }
}

// ---- Numbers ----

/// The decimal digits of a field as a byte; other characters are skipped and
/// overflow wraps.
pub open spec fn byte_value(field: Seq<u8>) -> int
    decreases field.len(),
{
    if field.len() == 0 {
        0
    } else if gps_number::is_digit(field.last()) {
        (10 * byte_value(field.drop_last()) + field.last() - 48) % 256
    } else {
        byte_value(field.drop_last())
    }
}

fn parse_u8(field: &[u8]) -> (v: u8)
    ensures
        v == byte_value(field@),
{
    let mut v: u8 = 0;
    let mut i: usize = 0;
    assert(field@.take(0) =~= Seq::empty());
    while i < field.len()
        invariant
            i <= field@.len(),
            v == byte_value(field@.take(i as int)),
        decreases field.len() - i,
    {
        assert(field@.take(i + 1).drop_last() =~= field@.take(i as int));
        if field[i] >= 48 && field[i] <= 57 {
            v = ((v as u32 * 10 + (field[i] - 48) as u32) % 256) as u8;
        }
        i += 1;
    }
    assert(field@.take(field@.len() as int) =~= field@);
    v
}

/// The value of a hexadecimal digit.
pub open spec fn hex_value(b: u8) -> Option<int> {
    if 48 <= b <= 57 {
        Some(b - 48)
    } else if 65 <= b <= 70 {
        Some(b - 55)
    } else if 97 <= b <= 102 {
        Some(b - 87)
    } else {
        None
    }
}

fn hex_digit(b: u8) -> (v: Option<u8>)
    ensures
        v is Some == hex_value(b) is Some,
        v matches Some(d) ==> d == hex_value(b)->0 && d < 16,
{
    if 48 <= b && b <= 57 {
        Some(b - 48)
    } else if 65 <= b && b <= 70 {
        Some(b - 55)
    } else if 97 <= b && b <= 102 {
        Some(b - 87)
    } else {
        None
    }
}

fn parse_hex_byte(hi: u8, lo: u8) -> (v: Option<u8>)
    ensures
        v is Some == (hex_value(hi) is Some && hex_value(lo) is Some),
        v matches Some(b) ==> b == 16 * hex_value(hi)->0 + hex_value(lo)->0,
{
    match (hex_digit(hi), hex_digit(lo)) {
        (Some(h), Some(l)) => Some(16 * h + l),
        _ => None,
    }
}

/// A coordinate `ddmm.mmmm` or `dddmm.mmmm`: the two digits before the point
/// and what follows are minutes, everything before is degrees.
pub open spec fn coord_of(field: Seq<u8>) -> Option<(
    gps_number::DecimalView,
    gps_number::DecimalView,
)> {
    let dot = first_index(field, 46) as int;
    if dot >= field.len() || dot < 2 {
        None
    } else {
        match (
            gps_number::decimal_of(field.take(dot - 2)),
            gps_number::decimal_of(field.skip(dot - 2)),
        ) {
            (Some(degrees), Some(minutes)) => Some((degrees, minutes)),
            _ => None,
        }
    }
}

/// Reads a coordinate into degrees and minutes.
pub fn parse_nmea_coord(field: &[u8]) -> (c: Option<(Decimal, Decimal)>)
    ensures
        c is Some == coord_of(field@) is Some,
        c matches Some(p) ==> p.0@ == (coord_of(field@)->0).0 && p.1@ == (coord_of(field@)->0).1,
{
    let dot: usize = find_byte(field, 46);
    if dot >= field.len() || dot < 2 {
        return None;
    }
    let head: &[u8] = vstd::slice::slice_subrange(field, 0, dot - 2);
    let tail: &[u8] = vstd::slice::slice_subrange(field, dot - 2, field.len());
    assert(head@ =~= field@.take(dot - 2));
    assert(tail@ =~= field@.skip(dot - 2));
    match (parse_decimal(head), parse_decimal(tail)) {
        (Some(degrees), Some(minutes)) => Some((degrees, minutes)),
        _ => None,
    }
}

// ---- What sentences mean ----

/// A number field, or the old value where the field is missing or empty.
pub open spec fn number_or(
    old_value: gps_number::NumberView,
    f: Seq<Seq<u8>>,
    k: int,
) -> gps_number::NumberView {
    match field_at(f, k) {
        Some(s) => match gps_number::decimal_of(s) {
            Some(d) => gps_number::NumberView::Decimal(d),
            None => old_value,
        },
        None => old_value,
    }
}

/// A speed field in knots, or the old value where it is missing or empty.
pub open spec fn knots_or(
    old_value: gps_number::NumberView,
    f: Seq<Seq<u8>>,
    k: int,
) -> gps_number::NumberView {
    match field_at(f, k) {
        Some(s) => match gps_number::decimal_of(s) {
            Some(d) => gps_number::NumberView::Knots(d),
            None => old_value,
        },
        None => old_value,
    }
}

/// A coordinate field and its hemisphere, or the old value where they are
/// missing or unreadable.
pub open spec fn coord_or(
    old_value: gps_number::NumberView,
    f: Seq<Seq<u8>>,
    k: int,
    negative: u8,
) -> gps_number::NumberView {
    match (field_at(f, k), field_at(f, k + 1)) {
        (Some(s), Some(dir)) => match coord_of(s) {
            Some((degrees, minutes)) => gps_number::NumberView::DegMin {
                degrees,
                minutes,
                negated: dir == seq![negative],
            },
            None => old_value,
        },
        _ => old_value,
    }
}

/// What a GGA sentence with the given fields makes of the data.
pub open spec fn after_gga(d: GpsView, f: Seq<Seq<u8>>) -> GpsView {
    GpsView {
        latitude: coord_or(d.latitude, f, 1, 83),
        longitude: coord_or(d.longitude, f, 3, 87),
        fix: match field_at(f, 5) {
            Some(s) => if s.len() > 0 {
                FixQuality::of_char(s[0])
            } else {
                d.fix
            },
            None => d.fix,
        },
        satellites: match field_at(f, 6) {
            Some(s) => byte_value(s) as u8,
            None => d.satellites,
        },
        hdop: number_or(d.hdop, f, 7),
        altitude_m: number_or(d.altitude_m, f, 8),
        updated: d.updated | UPDATED_GGA,
        ..d
    }
}

/// What an RMC sentence with the given fields makes of the data.
pub open spec fn after_rmc(d: GpsView, f: Seq<Seq<u8>>) -> GpsView {
    let timed = field_at(f, 0) is Some && f[0].len() >= 6;
    GpsView {
        hour: if timed { byte_value(f[0].subrange(0, 2)) as u8 } else { d.hour },
        minute: if timed { byte_value(f[0].subrange(2, 4)) as u8 } else { d.minute },
        second: if timed { byte_value(f[0].subrange(4, 6)) as u8 } else { d.second },
        rmc_valid: match field_at(f, 1) {
            Some(s) => s.len() > 0 && s[0] == 65,
            None => d.rmc_valid,
        },
        latitude: coord_or(d.latitude, f, 2, 83),
        longitude: coord_or(d.longitude, f, 4, 87),
        ground_speed_ms: knots_or(d.ground_speed_ms, f, 6),
        course_deg: number_or(d.course_deg, f, 7),
        updated: d.updated | UPDATED_RMC,
        ..d
    }
}

/// What a VTG sentence with the given fields makes of the data.
pub open spec fn after_vtg(d: GpsView, f: Seq<Seq<u8>>) -> GpsView {
    GpsView {
        course_true_deg: number_or(d.course_true_deg, f, 0),
        course_magnetic_deg: number_or(d.course_magnetic_deg, f, 2),
        ground_speed_ms: knots_or(d.ground_speed_ms, f, 4),
        ground_speed_kmh: number_or(d.ground_speed_kmh, f, 6),
        updated: d.updated | UPDATED_VTG,
        ..d
    }
}

/// What a GSA sentence with the given fields makes of the data.
pub open spec fn after_gsa(d: GpsView, f: Seq<Seq<u8>>) -> GpsView {
    GpsView {
        fix_mode: match field_at(f, 1) {
            Some(s) => if s.len() > 0 {
                FixMode::of_char(s[0])
            } else {
                d.fix_mode
            },
            None => d.fix_mode,
        },
        pdop: number_or(d.pdop, f, 14),
        hdop: number_or(d.hdop, f, 15),
        vdop: number_or(d.vdop, f, 16),
        updated: d.updated | UPDATED_GSA,
        ..d
    }
}

/// XOR of a run of bytes.
pub open spec fn xor_of(s: Seq<u8>) -> u8
    decreases s.len(),
{
    if s.len() == 0 {
        0
    } else {
        xor_of(s.drop_last()) ^ s.last()
    }
}

/// Where the checksum mark of a sentence is.
pub open spec fn star_of(s: Seq<u8>) -> int {
    first_index(s, 42) as int
}

/// Whether a sentence is long enough, has a body, and its checksum matches.
pub open spec fn checks_out(s: Seq<u8>) -> bool {
    let star = star_of(s);
    &&& s.len() >= 10
    &&& 7 <= star
    &&& star + 2 < s.len()
    &&& hex_value(s[star + 1]) is Some
    &&& hex_value(s[star + 2]) is Some
    &&& xor_of(s.subrange(1, star)) == 16 * hex_value(s[star + 1])->0 + hex_value(
        s[star + 2],
    )->0
}

/// The type of an acceptable sentence.
pub open spec fn sentence_type(s: Seq<u8>) -> Option<SentenceType> {
    if !checks_out(s) {
        None
    } else if s[3] == 71 && s[4] == 71 && s[5] == 65 {
        Some(SentenceType::Gga)
    } else if s[3] == 82 && s[4] == 77 && s[5] == 67 {
        Some(SentenceType::Rmc)
    } else if s[3] == 86 && s[4] == 84 && s[5] == 71 {
        Some(SentenceType::Vtg)
    } else if s[3] == 71 && s[4] == 83 && s[5] == 65 {
        Some(SentenceType::Gsa)
    } else {
        None
    }
}

/// What a sentence makes of the data.
pub open spec fn after_sentence(d: GpsView, s: Seq<u8>) -> GpsView {
    let f = split_fields(s.subrange(7, star_of(s)));
    match sentence_type(s) {
        Some(SentenceType::Gga) => after_gga(d, f),
        Some(SentenceType::Rmc) => after_rmc(d, f),
        Some(SentenceType::Vtg) => after_vtg(d, f),
        Some(SentenceType::Gsa) => after_gsa(d, f),
        None => d,
    }
}

/// The bytes held after one more has arrived.
pub open spec fn pending_after(pending: Seq<u8>, byte: u8) -> Seq<u8> {
    if pending.len() == 0 {
        if byte == 36 {
            seq![byte]
        } else {
            Seq::empty()
        }
    } else if pending.len() >= MAX_SENTENCE_LEN || byte == 10 {
        Seq::empty()
    } else {
        pending.push(byte)
    }
}

/// Whether one more byte completes a sentence.
pub open spec fn completes(pending: Seq<u8>, byte: u8) -> bool {
    0 < pending.len() < MAX_SENTENCE_LEN && byte == 10
}

// ---- Parser ----

fn set_number(slot: &mut GpsNumber, field: Option<&[u8]>)
    ensures
        final(slot)@ == (match field {
            Some(s) => match gps_number::decimal_of(s@) {
                Some(d) => gps_number::NumberView::Decimal(d),
                None => old(slot)@,
            },
            None => old(slot)@,
        }),
{
    if let Some(s) = field {
        if let Some(d) = parse_decimal(s) {
            *slot = GpsNumber::Decimal(d);
        }
    }
}

fn set_knots(slot: &mut GpsNumber, field: Option<&[u8]>)
    ensures
        final(slot)@ == (match field {
            Some(s) => match gps_number::decimal_of(s@) {
                Some(d) => gps_number::NumberView::Knots(d),
                None => old(slot)@,
            },
            None => old(slot)@,
        }),
{
    if let Some(s) = field {
        if let Some(d) = parse_decimal(s) {
            *slot = GpsNumber::Knots(d);
        }
    }
}

fn set_coord(slot: &mut GpsNumber, field: Option<&[u8]>, dir: Option<&[u8]>, negative: u8)
    ensures
        final(slot)@ == (match (field, dir) {
            (Some(s), Some(h)) => match coord_of(s@) {
                Some((degrees, minutes)) => gps_number::NumberView::DegMin {
                    degrees,
                    minutes,
                    negated: h@ == seq![negative],
                },
                None => old(slot)@,
            },
            _ => old(slot)@,
        }),
{
    if let Some(s) = field {
        if let Some(h) = dir {
            if let Some((degrees, minutes)) = parse_nmea_coord(s) {
                let negated: bool = h.len() == 1 && h[0] == negative;
                assert(negated == (h@ == seq![negative])) by {
                    if negated {
                        assert(h@ =~= seq![negative]);
                    }
                }
                *slot = GpsNumber::DegMin { degrees, minutes, negated };
            }
        }
    }
}

fn parse_gga(data: &mut GpsData, body: &[u8])
    ensures
        final(data)@ == after_gga(old(data)@, split_fields(body@)),
{
    let ghost f = split_fields(body@);
    let mut fields: FieldIter<'_> = FieldIter::new(body);
    let _time: Option<&[u8]> = fields.next();
    let lat: Option<&[u8]> = fields.next();
    let lat_dir: Option<&[u8]> = fields.next();
    let lon: Option<&[u8]> = fields.next();
    let lon_dir: Option<&[u8]> = fields.next();
    if let Some(s) = fields.next() {
        if s.len() > 0 {
            data.fix = FixQuality::from_byte(s[0]);
        }
    }
    if let Some(s) = fields.next() {
        data.satellites = parse_u8(s);
    }
    let hdop: Option<&[u8]> = fields.next();
    set_number(&mut data.hdop, hdop);
    let alt: Option<&[u8]> = fields.next();
    set_number(&mut data.altitude_m, alt);
    set_coord(&mut data.latitude, lat, lat_dir, 83);
    set_coord(&mut data.longitude, lon, lon_dir, 87);
    data.updated = data.updated | UPDATED_GGA;
    assert(data@ =~= after_gga(old(data)@, f));
}

fn parse_rmc(data: &mut GpsData, body: &[u8])
    ensures
        final(data)@ == after_rmc(old(data)@, split_fields(body@)),
{
    let ghost f = split_fields(body@);
    let mut fields: FieldIter<'_> = FieldIter::new(body);
    if let Some(s) = fields.next() {
        if s.len() >= 6 {
            data.hour = parse_u8(vstd::slice::slice_subrange(s, 0, 2));
            data.minute = parse_u8(vstd::slice::slice_subrange(s, 2, 4));
            data.second = parse_u8(vstd::slice::slice_subrange(s, 4, 6));
        }
    }
    if let Some(s) = fields.next() {
        data.rmc_valid = s.len() > 0 && s[0] == 65;
    }
    let lat: Option<&[u8]> = fields.next();
    let lat_dir: Option<&[u8]> = fields.next();
    let lon: Option<&[u8]> = fields.next();
    let lon_dir: Option<&[u8]> = fields.next();
    let speed: Option<&[u8]> = fields.next();
    set_knots(&mut data.ground_speed_ms, speed);
    let course: Option<&[u8]> = fields.next();
    set_number(&mut data.course_deg, course);
    set_coord(&mut data.latitude, lat, lat_dir, 83);
    set_coord(&mut data.longitude, lon, lon_dir, 87);
    data.updated = data.updated | UPDATED_RMC;
    assert(data@ =~= after_rmc(old(data)@, f));
}

fn parse_vtg(data: &mut GpsData, body: &[u8])
    ensures
        final(data)@ == after_vtg(old(data)@, split_fields(body@)),
{
    let ghost f = split_fields(body@);
    let mut fields: FieldIter<'_> = FieldIter::new(body);
    let course_true: Option<&[u8]> = fields.next();
    set_number(&mut data.course_true_deg, course_true);
    let _t: Option<&[u8]> = fields.next();
    let course_magnetic: Option<&[u8]> = fields.next();
    set_number(&mut data.course_magnetic_deg, course_magnetic);
    let _m: Option<&[u8]> = fields.next();
    let knots: Option<&[u8]> = fields.next();
    set_knots(&mut data.ground_speed_ms, knots);
    let _n: Option<&[u8]> = fields.next();
    let kmh: Option<&[u8]> = fields.next();
    set_number(&mut data.ground_speed_kmh, kmh);
    data.updated = data.updated | UPDATED_VTG;
    assert(data@ =~= after_vtg(old(data)@, f));
}

fn parse_gsa(data: &mut GpsData, body: &[u8])
    ensures
        final(data)@ == after_gsa(old(data)@, split_fields(body@)),
{
    let ghost f = split_fields(body@);
    let mut fields: FieldIter<'_> = FieldIter::new(body);
    let _selection: Option<&[u8]> = fields.next();
    if let Some(s) = fields.next() {
        if s.len() > 0 {
            data.fix_mode = FixMode::from_byte(s[0]);
        }
    }
    let mut skipped: usize = 0;
    while skipped < 12
        invariant
            skipped <= 12,
            fields.wf(),
            fields.rest() == f.skip(if 2 + skipped <= f.len() { 2 + skipped } else {
                f.len() as int
            }),
        decreases 12 - skipped,
    {
        let ghost before = fields.rest();
        let _prn: Option<&[u8]> = fields.next();
        assert(before.len() > 0 ==> before.skip(1) =~= f.skip(3 + skipped));
        skipped += 1;
    }
    let pdop: Option<&[u8]> = fields.next();
    set_number(&mut data.pdop, pdop);
    let hdop: Option<&[u8]> = fields.next();
    set_number(&mut data.hdop, hdop);
    let vdop: Option<&[u8]> = fields.next();
    set_number(&mut data.vdop, vdop);
    data.updated = data.updated | UPDATED_GSA;
    assert(data@ =~= after_gsa(old(data)@, f));
}

fn checksum(s: &[u8]) -> (x: u8)
    ensures
        x == xor_of(s@),
{
    let mut x: u8 = 0;
    let mut i: usize = 0;
    assert(s@.take(0) =~= Seq::empty());
    while i < s.len()
        invariant
            i <= s@.len(),
            x == xor_of(s@.take(i as int)),
        decreases s.len() - i,
    {
        assert(s@.take(i + 1).drop_last() =~= s@.take(i as int));
        x = x ^ s[i];
        i += 1;
    }
    assert(s@.take(s@.len() as int) =~= s@);
    x
}

/// Takes a complete sentence, from `$` to the line feed, into the data. A
/// sentence whose checksum follows its type without a body is not acceptable.
pub fn parse_sentence(data: &mut GpsData, s: &[u8]) -> (kind: Option<SentenceType>)
    ensures
        kind == sentence_type(s@),
        final(data)@ == after_sentence(old(data)@, s@),
{
    let len: usize = s.len();
    if len < 10 {
        return None;
    }
    let star: usize = find_byte(s, 42);
    if star < 7 || star >= len || len - star <= 2 {
        return None;
    }
    let expected: u8 = match parse_hex_byte(s[star + 1], s[star + 2]) {
        Some(b) => b,
        None => return None,
    };
    if checksum(vstd::slice::slice_subrange(s, 1, star)) != expected {
        return None;
    }
    let body: &[u8] = vstd::slice::slice_subrange(s, 7, star);
    if s[3] == 71 && s[4] == 71 && s[5] == 65 {
        parse_gga(data, body);
        Some(SentenceType::Gga)
    } else if s[3] == 82 && s[4] == 77 && s[5] == 67 {
        parse_rmc(data, body);
        Some(SentenceType::Rmc)
    } else if s[3] == 86 && s[4] == 84 && s[5] == 71 {
        parse_vtg(data, body);
        Some(SentenceType::Vtg)
    } else if s[3] == 71 && s[4] == 83 && s[5] == 65 {
        parse_gsa(data, body);
        Some(SentenceType::Gsa)
    } else {
        None
    }
}

/// Streaming parser: feed it bytes; `data` changes with each valid sentence.
pub struct NmeaParser {
    pub buf: [u8; MAX_SENTENCE_LEN],
    pub pos: usize,
    pub data: GpsData,
}

impl NmeaParser {
    pub open spec fn wf(&self) -> bool {
        self.pos <= MAX_SENTENCE_LEN
    }

    /// The bytes of the sentence being received.
    pub open spec fn pending(&self) -> Seq<u8> {
        self.buf@.take(self.pos as int)
    }

    pub fn new() -> (p: Self)
        ensures
            p.wf(),
            p.pending() == Seq::<u8>::empty(),
            p.data@ == initial_view(),
    {
        let p = NmeaParser { buf: [0; MAX_SENTENCE_LEN], pos: 0, data: GpsData::new() };
        assert(p.pending() =~= Seq::empty());
        p
    }

    /// Feeds one byte. The type comes with the line feed that completes an
    /// acceptable sentence; a sentence that does not fit is discarded.
    pub fn push_byte(&mut self, byte: u8) -> (kind: Option<SentenceType>)
        requires
            old(self).wf(),
        ensures
            final(self).wf(),
            final(self).pending() == pending_after(old(self).pending(), byte),
            completes(old(self).pending(), byte) ==> {
                &&& kind == sentence_type(old(self).pending().push(byte))
                &&& final(self).data@ == after_sentence(
                    old(self).data@,
                    old(self).pending().push(byte),
                )
            },
            !completes(old(self).pending(), byte) ==> kind is None && final(self).data@ == old(
                self,
            ).data@,
    {
        let ghost before = self.pending();
        if self.pos == 0 {
            if byte == 36 {
                self.buf[0] = byte;
                self.pos = 1;
            }
            assert(self.pending() =~= pending_after(before, byte));
            return None;
        }
        if self.pos >= MAX_SENTENCE_LEN {
            self.pos = 0;
            assert(self.pending() =~= Seq::empty());
            return None;
        }
        self.buf[self.pos] = byte;
        self.pos = self.pos + 1;
        assert(self.pending() =~= before.push(byte));
        if byte == 10 {
            let s: &[u8] = vstd::slice::slice_subrange(self.buf.as_slice(), 0, self.pos);
            assert(s@ =~= before.push(byte));
            let kind: Option<SentenceType> = parse_sentence(&mut self.data, s);
            self.pos = 0;
            assert(self.pending() =~= Seq::empty());
            kind
        } else {
            None
        }
    }
}

// ---- Laws ----

/// The bytes held after a run of bytes.
pub open spec fn pending_after_all(pending: Seq<u8>, bytes: Seq<u8>) -> Seq<u8>
    decreases bytes.len(),
{
    if bytes.len() == 0 {
        pending
    } else {
        pending_after(pending_after_all(pending, bytes.drop_last()), bytes.last())
    }
}

/// Whether bytes run from a dollar sign to the first line feed and fit.
pub open spec fn is_sentence(s: Seq<u8>) -> bool {
    &&& 2 <= s.len() <= MAX_SENTENCE_LEN
    &&& s[0] == 36
    &&& s.last() == 10
    &&& forall|i: int| 0 <= i < s.len() - 1 ==> s[i] != 10
}

/// A sentence fed to an idle parser is held byte by byte; its line feed
/// completes it and leaves the parser idle.
pub proof fn law_sentence_is_received_whole(s: Seq<u8>, k: int)
    requires
        is_sentence(s),
        0 <= k < s.len(),
    ensures
        pending_after_all(Seq::empty(), s.take(k)) == s.take(k),
        completes(s.take(k), s[k]) <==> k + 1 == s.len(),
        pending_after_all(Seq::empty(), s) == Seq::<u8>::empty(),
    decreases k,
{
    lemma_sentence_prefix(s, k);
    lemma_sentence_prefix(s, s.len() - 1);
    assert(s.drop_last() =~= s.take(s.len() - 1));
}

proof fn lemma_sentence_prefix(s: Seq<u8>, k: int)
    requires
        is_sentence(s),
        0 <= k < s.len(),
    ensures
        pending_after_all(Seq::empty(), s.take(k)) == s.take(k),
    decreases k,
{
    if k > 0 {
        lemma_sentence_prefix(s, k - 1);
        assert(s.take(k).drop_last() =~= s.take(k - 1));
        assert(s.take(k - 1).push(s[k - 1]) =~= s.take(k));
        if k == 1 {
            assert(s.take(1) =~= seq![36u8]);
        }
    }
}

/// Bytes without a dollar sign leave an idle parser idle.
pub proof fn law_garbage_is_skipped(garbage: Seq<u8>)
    requires
        forall|i: int| 0 <= i < garbage.len() ==> garbage[i] != 36,
    ensures
        pending_after_all(Seq::empty(), garbage) == Seq::<u8>::empty(),
    decreases garbage.len(),
{
    if garbage.len() > 0 {
        law_garbage_is_skipped(garbage.drop_last());
    }
}

/// Whatever came before, a line feed leaves the parser idle.
pub proof fn law_line_feed_resynchronises(pending: Seq<u8>)
    ensures
        pending_after(pending, 10) == Seq::<u8>::empty(),
{
}

/// An upper-case hexadecimal digit.
pub open spec fn hex_char(n: int) -> u8 {
    if n < 10 {
        (48 + n) as u8
    } else {
        (55 + n) as u8
    }
}

/// A sentence around a body: dollar sign, body, mark, checksum, line end.
pub open spec fn sentence_of(body: Seq<u8>) -> Seq<u8> {
    seq![36u8] + body + seq![
        42u8,
        hex_char(xor_of(body) as int / 16),
        hex_char(xor_of(body) as int % 16),
        13u8,
        10u8,
    ]
}

/// A body framed with its checksum is accepted, and its type is the one the
/// body names.
pub proof fn law_framed_body_is_accepted(body: Seq<u8>, kind: SentenceType)
    requires
        body.len() >= 6,
        forall|i: int| 0 <= i < body.len() ==> body[i] != 42,
        body.subrange(2, 5) == (match kind {
            SentenceType::Gga => seq![71u8, 71u8, 65u8],
            SentenceType::Rmc => seq![82u8, 77u8, 67u8],
            SentenceType::Vtg => seq![86u8, 84u8, 71u8],
            SentenceType::Gsa => seq![71u8, 83u8, 65u8],
        }),
    ensures
        sentence_type(sentence_of(body)) == Some(kind),
{
    let s = sentence_of(body);
    let star = body.len() as int + 1;
    assert(s[star] == 42);
    assert forall|i: int| 0 <= i < star implies s[i] != 42 by {
        if i > 0 {
            assert(s[i] == body[i - 1]);
        }
    }
    lemma_first_index(s, 42, star);
    assert(s.subrange(1, star) =~= body);
    let t = body.subrange(2, 5);
    assert(t[0] == body[2] && t[1] == body[3] && t[2] == body[4]);
    assert(s[3] == body[2] && s[4] == body[3] && s[5] == body[4]);
}

proof fn lemma_xor_cancel(a: u8, b: u8, x: u8, y: u8)
    by (bit_vector)
    ensures
        a ^ x == b ^ x ==> a == b,
        a ^ x == a ^ y ==> x == y,
{
}

proof fn lemma_xor_differs(a: Seq<u8>, b: Seq<u8>, at: int)
    requires
        a.len() == b.len(),
        0 <= at < a.len(),
        a[at] != b[at],
        forall|i: int| 0 <= i < a.len() && i != at ==> a[i] == b[i],
    ensures
        xor_of(a) != xor_of(b),
    decreases a.len(),
{
    lemma_xor_cancel(xor_of(a.drop_last()), xor_of(b.drop_last()), a.last(), b.last());
    if at == a.len() - 1 {
        assert(a.drop_last() =~= b.drop_last());
    } else {
        lemma_xor_differs(a.drop_last(), b.drop_last(), at);
    }
}

/// A sentence with one byte before its checksum mark changed is rejected.
pub proof fn law_one_corrupt_byte_is_rejected(s: Seq<u8>, t: Seq<u8>, at: int)
    requires
        checks_out(s),
        t.len() == s.len(),
        1 <= at < star_of(s),
        t[at] != s[at],
        t[at] != 42,
        forall|i: int| 0 <= i < s.len() && i != at ==> t[i] == s[i],
    ensures
        !checks_out(t),
{
    let star = star_of(s);
    lemma_first_index_is_first(s, 42);
    assert forall|i: int| 0 <= i < star implies t[i] != 42 by {
        if i != at {
            assert(s[i] != 42);
        }
    }
    lemma_first_index(t, 42, star);
    let a = s.subrange(1, star);
    let b = t.subrange(1, star);
    assert forall|i: int| 0 <= i < a.len() && i != at - 1 implies a[i] == b[i] by {
        assert(s[i + 1] == t[i + 1]);
    }
    assert(a[at - 1] == s[at] && b[at - 1] == t[at]);
    lemma_xor_differs(a, b, at - 1);
}

proof fn lemma_first_index_is_first(s: Seq<u8>, b: u8)
    ensures
        first_index(s, b) <= s.len(),
        forall|i: int| 0 <= i < first_index(s, b) ==> s[i] != b,
        first_index(s, b) < s.len() ==> s[first_index(s, b) as int] == b,
    decreases s.len(),
{
    if s.len() > 0 && s[0] != b {
        lemma_first_index_is_first(s.skip(1), b);
        assert forall|i: int| 0 <= i < first_index(s, b) implies s[i] != b by {
            if i > 0 {
                assert(s.skip(1)[i - 1] == s[i]);
            }
        }
    }
}

// ---- What a receiver writes ----

/// Fields with commas between them.
pub open spec fn joined(f: Seq<Seq<u8>>) -> Seq<u8>
    decreases f.len(),
{
    if f.len() == 0 {
        Seq::empty()
    } else if f.len() == 1 {
        f[0]
    } else {
        f[0] + seq![44u8] + joined(f.skip(1))
    }
}

/// Whether no field holds a comma or a checksum mark.
#[verifier::opaque]
pub open spec fn are_fields(f: Seq<Seq<u8>>) -> bool {
    forall|k: int, i: int|
        0 <= k < f.len() && 0 <= i < f[k].len() ==> #[trigger] f[k][i] != 44 && f[k][i] != 42
}

/// Fields that were joined are taken apart again.
pub proof fn law_joined_fields_are_split(f: Seq<Seq<u8>>)
    requires
        f.len() > 0,
        are_fields(f),
    ensures
        split_fields(joined(f)) == f,
        forall|i: int| 0 <= i < joined(f).len() ==> joined(f)[i] != 42,
    decreases f.len(),
{
    reveal(are_fields);
    let s = joined(f);
    let n = f[0].len() as int;
    if f.len() == 1 {
        lemma_first_index(s, 44, n);
        assert(split_fields(s) =~= f);
    } else {
        let rest = f.skip(1);
        assert forall|k: int, i: int| 0 <= k < rest.len() && 0 <= i < rest[k].len() implies
            #[trigger] rest[k][i] != 44 && rest[k][i] != 42 by {
            assert(rest[k] == f[k + 1]);
            assert(f[k + 1][i] != 44);
        }
        law_joined_fields_are_split(rest);
        assert forall|i: int| 0 <= i < n implies s[i] != 44 by {
            assert(s[i] == f[0][i]);
        }
        assert(s[n] == 44);
        lemma_first_index(s, 44, n);
        assert(s.take(n) =~= f[0]);
        assert(s.skip(n + 1) =~= joined(rest));
        assert(split_fields(s) =~= seq![f[0]] + rest);
        assert(seq![f[0]] + rest =~= f);
        assert forall|i: int| 0 <= i < s.len() implies s[i] != 42 by {
            if i < n {
                assert(s[i] == f[0][i]);
            } else if i > n {
                assert(s[i] == joined(rest)[i - n - 1]);
            }
        }
    }
}

/// The letters of a sentence type.
pub open spec fn letters(kind: SentenceType) -> Seq<u8> {
    match kind {
        SentenceType::Gga => seq![71u8, 71u8, 65u8],
        SentenceType::Rmc => seq![82u8, 77u8, 67u8],
        SentenceType::Vtg => seq![86u8, 84u8, 71u8],
        SentenceType::Gsa => seq![71u8, 83u8, 65u8],
    }
}

/// A whole sentence as a receiver writes it: two letters for who talks, three for the
/// type, and the fields.
pub open spec fn spoken(t0: u8, t1: u8, kind: SentenceType, f: Seq<Seq<u8>>) -> Seq<u8> {
    sentence_of(seq![t0, t1] + letters(kind) + seq![44u8] + joined(f))
}

proof fn lemma_spoken_body(t0: u8, t1: u8, kind: SentenceType, text: Seq<u8>)
    requires
        t0 != 42,
        t1 != 42,
        forall|i: int| 0 <= i < text.len() ==> text[i] != 42,
    ensures
        ({
            let s = sentence_of(seq![t0, t1] + letters(kind) + seq![44u8] + text);
            &&& sentence_type(s) == Some(kind)
            &&& s.subrange(7, star_of(s)) == text
        }),
{
    let head = seq![t0, t1] + letters(kind) + seq![44u8];
    let body = head + text;
    assert(head.len() == 6);
    assert(head[0] == t0 && head[1] == t1 && head[5] == 44);
    assert(body.subrange(2, 5) =~= letters(kind));
    assert forall|i: int| 0 <= i < body.len() implies body[i] != 42 by {
        if i >= 6 {
            assert(body[i] == text[i - 6]);
        } else {
            assert(body[i] == head[i]);
        }
    }
    law_framed_body_is_accepted(body, kind);
    let s = sentence_of(body);
    let star = body.len() as int + 1;
    assert(s[star] == 42);
    assert forall|i: int| 0 <= i < star implies s[i] != 42 by {
        if i > 0 {
            assert(s[i] == body[i - 1]);
        }
    }
    lemma_first_index(s, 42, star);
    assert(s.subrange(7, star) =~= text) by {
        assert forall|i: int| 0 <= i < text.len() implies s.subrange(7, star)[i] == text[i] by {
            assert(s[i + 7] == body[i + 6]);
            assert(body[i + 6] == text[i]);
        }
    }
}

proof fn lemma_spoken(d: GpsView, t0: u8, t1: u8, kind: SentenceType, f: Seq<Seq<u8>>)
    requires
        t0 != 42,
        t1 != 42,
        f.len() > 0,
        are_fields(f),
    ensures
        sentence_type(spoken(t0, t1, kind, f)) == Some(kind),
        kind == SentenceType::Gga ==> after_sentence(d, spoken(t0, t1, kind, f)) == after_gga(d, f),
        kind == SentenceType::Rmc ==> after_sentence(d, spoken(t0, t1, kind, f)) == after_rmc(d, f),
        kind == SentenceType::Vtg ==> after_sentence(d, spoken(t0, t1, kind, f)) == after_vtg(d, f),
        kind == SentenceType::Gsa ==> after_sentence(d, spoken(t0, t1, kind, f)) == after_gsa(d, f),
{
    law_joined_fields_are_split(f);
    lemma_spoken_body(t0, t1, kind, joined(f));
}

/// A coordinate as it is written: degrees, two digits of minutes, a point and the
/// decimals of the minutes.
pub open spec fn coordinate(deg: Seq<u8>, m1: u8, m0: u8, frac: Seq<u8>) -> Seq<u8> {
    gps_number::spelled(deg) + gps_number::written(false, seq![m1, m0], frac)
}

/// Whether a number is degrees and minutes, with a sign.
#[verifier::opaque]
pub open spec fn is_angle(
    n: gps_number::NumberView,
    deg: Seq<u8>,
    m1: u8,
    m0: u8,
    frac: Seq<u8>,
    negated: bool,
) -> bool {
    &&& n is DegMin
    &&& n->degrees.int_digits == deg
    &&& n->degrees.frac_digits == Seq::<u8>::empty()
    &&& !n->degrees.negative
    &&& n->minutes.int_digits == seq![m1, m0]
    &&& n->minutes.frac_digits == frac
    &&& !n->minutes.negative
    &&& n->negated == negated
}

/// A coordinate is read as the degrees and minutes it was written with.
pub proof fn law_written_coordinate_is_read(deg: Seq<u8>, m1: u8, m0: u8, frac: Seq<u8>)
    requires
        deg.len() > 0,
        gps_number::are_digits(deg),
        m1 < 10,
        m0 < 10,
        gps_number::are_digits(frac),
    ensures
        ({
            let read = coord_of(coordinate(deg, m1, m0, frac));
            &&& read is Some
            &&& (read->0).0.int_digits == deg
            &&& (read->0).0.frac_digits == Seq::<u8>::empty()
            &&& !(read->0).0.negative
            &&& (read->0).1.int_digits == seq![m1, m0]
            &&& (read->0).1.frac_digits == frac
            &&& !(read->0).1.negative
        }),
{
    let field = coordinate(deg, m1, m0, frac);
    let minutes = gps_number::written(false, seq![m1, m0], frac);
    let n = deg.len() as int;
    assert(gps_number::spelled(seq![m1, m0]) =~= seq![(48 + m1) as u8, (48 + m0) as u8]);
    assert(minutes =~= seq![(48 + m1) as u8, (48 + m0) as u8, 46u8] + gps_number::spelled(frac));
    assert(field[n + 2] == 46);
    assert forall|i: int| 0 <= i < n + 2 implies field[i] != 46 by {
        if i < n {
            assert(deg[i] < 10);
            assert(field[i] == 48 + deg[i]);
        } else {
            assert(field[i] == minutes[i - n]);
        }
    }
    lemma_first_index(field, 46, n + 2);
    assert(field.take(n) =~= gps_number::spelled(deg));
    assert(field.skip(n) =~= minutes);
    gps_number::law_written_integer_is_read(deg);
    assert(gps_number::are_digits(seq![m1, m0]));
    gps_number::law_written_number_is_read(false, seq![m1, m0], frac);
}

/// Whether a number is a decimal with these digits.
pub open spec fn is_decimal(n: gps_number::NumberView, int_digits: Seq<u8>, frac: Seq<u8>) -> bool {
    n matches gps_number::NumberView::Decimal(d) && !d.negative && d.int_digits == int_digits
        && d.frac_digits == frac
}

/// Whether a number is a speed in knots with these digits.
pub open spec fn is_knots(n: gps_number::NumberView, int_digits: Seq<u8>, frac: Seq<u8>) -> bool {
    n matches gps_number::NumberView::Knots(d) && !d.negative && d.int_digits == int_digits
        && d.frac_digits == frac
}

proof fn lemma_angle_field(
    old_value: gps_number::NumberView,
    f: Seq<Seq<u8>>,
    k: int,
    deg: Seq<u8>,
    m1: u8,
    m0: u8,
    frac: Seq<u8>,
    positive: u8,
    negative: u8,
    negated: bool,
)
    requires
        0 <= k < f.len() - 1,
        deg.len() > 0,
        gps_number::are_digits(deg),
        m1 < 10,
        m0 < 10,
        gps_number::are_digits(frac),
        positive != negative,
        f[k] == coordinate(deg, m1, m0, frac),
        f[k + 1] == (if negated {
            seq![negative]
        } else {
            seq![positive]
        }),
    ensures
        is_angle(coord_or(old_value, f, k, negative), deg, m1, m0, frac, negated),
{
    reveal(is_angle);
    law_written_coordinate_is_read(deg, m1, m0, frac);
    assert(seq![positive][0] != seq![negative][0]);
}

/// Two digits are read as their number.
pub proof fn law_two_digits_are_read(a: u8, b: u8)
    requires
        a < 10,
        b < 10,
    ensures
        byte_value(seq![(48 + a) as u8, (48 + b) as u8]) == 10 * a + b,
{
    let s = seq![(48 + a) as u8, (48 + b) as u8];
    let t = s.drop_last();
    assert(t =~= seq![(48 + a) as u8]);
    assert(t.drop_last() =~= Seq::empty());
    assert(byte_value(t.drop_last()) == 0);
    assert(byte_value(t) == a);
}

/// A position sentence is read field by field: latitude and longitude in degrees and
/// minutes with their hemispheres, quality, satellites, dilution and altitude.
pub proof fn law_spoken_gga_is_read(
    d: GpsView,
    t0: u8,
    t1: u8,
    f: Seq<Seq<u8>>,
    lat: Seq<u8>,
    lon: Seq<u8>,
    m: Seq<u8>,
    frac: Seq<u8>,
    south: bool,
    west: bool,
    quality: u8,
    sats: Seq<u8>,
    hdop: Seq<u8>,
    alt: Seq<u8>,
)
    requires
        t0 != 42,
        t1 != 42,
        f.len() >= 9,
        are_fields(f),
        lat.len() > 0,
        lon.len() > 0,
        m.len() == 4,
        gps_number::are_digits(lat),
        gps_number::are_digits(lon),
        gps_number::are_digits(m),
        gps_number::are_digits(frac),
        quality < 7,
        sats.len() == 2,
        gps_number::are_digits(sats),
        gps_number::are_digits(hdop),
        gps_number::are_digits(alt),
        f[1] == coordinate(lat, m[0], m[1], frac),
        f[2] == (if south {
            seq![83u8]
        } else {
            seq![78u8]
        }),
        f[3] == coordinate(lon, m[2], m[3], frac),
        f[4] == (if west {
            seq![87u8]
        } else {
            seq![69u8]
        }),
        f[5] == seq![(48 + quality) as u8],
        f[6] == gps_number::spelled(sats),
        f[7] == gps_number::written(false, hdop, frac),
        f[8] == gps_number::written(false, alt, frac),
    ensures
        ({
            let g = after_sentence(d, spoken(t0, t1, SentenceType::Gga, f));
            &&& is_angle(g.latitude, lat, m[0], m[1], frac, south)
            &&& is_angle(g.longitude, lon, m[2], m[3], frac, west)
            &&& quality == 0 ==> g.fix == FixQuality::NoFix
            &&& quality == 1 ==> g.fix == FixQuality::GpsFix
            &&& quality == 2 ==> g.fix == FixQuality::DgpsFix
            &&& quality == 3 ==> g.fix == FixQuality::PpsFix
            &&& quality == 4 ==> g.fix == FixQuality::RtkFixed
            &&& quality == 5 ==> g.fix == FixQuality::RtkFloat
            &&& quality == 6 ==> g.fix == FixQuality::Estimated
            &&& g.satellites == 10 * sats[0] + sats[1]
            &&& is_decimal(g.hdop, hdop, frac)
            &&& is_decimal(g.altitude_m, alt, frac)
            &&& g.updated == d.updated | 1
            &&& g.fix_mode == d.fix_mode
            &&& g.rmc_valid == d.rmc_valid
            &&& g.ground_speed_ms == d.ground_speed_ms
            &&& g.course_deg == d.course_deg
        }),
{
    lemma_spoken(d, t0, t1, SentenceType::Gga, f);
    assert(m[0] < 10 && m[1] < 10 && m[2] < 10 && m[3] < 10);
    lemma_angle_field(d.latitude, f, 1, lat, m[0], m[1], frac, 78, 83, south);
    lemma_angle_field(d.longitude, f, 3, lon, m[2], m[3], frac, 69, 87, west);
    assert(sats[0] < 10 && sats[1] < 10);
    assert(gps_number::spelled(sats) =~= seq![(48 + sats[0]) as u8, (48 + sats[1]) as u8]);
    law_two_digits_are_read(sats[0], sats[1]);
    gps_number::law_written_number_is_read(false, hdop, frac);
    gps_number::law_written_number_is_read(false, alt, frac);
}

/// A recommended-minimum sentence is read field by field: time of day, validity,
/// position, speed in knots and course.
pub proof fn law_spoken_rmc_is_read(
    d: GpsView,
    t0: u8,
    t1: u8,
    f: Seq<Seq<u8>>,
    time: Seq<u8>,
    valid: bool,
    lat: Seq<u8>,
    lon: Seq<u8>,
    m: Seq<u8>,
    frac: Seq<u8>,
    south: bool,
    west: bool,
    speed: Seq<u8>,
    course: Seq<u8>,
)
    requires
        t0 != 42,
        t1 != 42,
        f.len() >= 8,
        are_fields(f),
        time.len() == 6,
        gps_number::are_digits(time),
        lat.len() > 0,
        lon.len() > 0,
        m.len() == 4,
        gps_number::are_digits(lat),
        gps_number::are_digits(lon),
        gps_number::are_digits(m),
        gps_number::are_digits(frac),
        gps_number::are_digits(speed),
        gps_number::are_digits(course),
        f[0] == gps_number::spelled(time),
        f[1] == (if valid {
            seq![65u8]
        } else {
            seq![86u8]
        }),
        f[2] == coordinate(lat, m[0], m[1], frac),
        f[3] == (if south {
            seq![83u8]
        } else {
            seq![78u8]
        }),
        f[4] == coordinate(lon, m[2], m[3], frac),
        f[5] == (if west {
            seq![87u8]
        } else {
            seq![69u8]
        }),
        f[6] == gps_number::written(false, speed, frac),
        f[7] == gps_number::written(false, course, frac),
    ensures
        ({
            let g = after_sentence(d, spoken(t0, t1, SentenceType::Rmc, f));
            &&& g.hour == 10 * time[0] + time[1]
            &&& g.minute == 10 * time[2] + time[3]
            &&& g.second == 10 * time[4] + time[5]
            &&& g.rmc_valid == valid
            &&& is_angle(g.latitude, lat, m[0], m[1], frac, south)
            &&& is_angle(g.longitude, lon, m[2], m[3], frac, west)
            &&& is_knots(g.ground_speed_ms, speed, frac)
            &&& is_decimal(g.course_deg, course, frac)
            &&& g.updated == d.updated | 2
            &&& g.altitude_m == d.altitude_m
            &&& g.fix == d.fix
            &&& g.satellites == d.satellites
        }),
{
    lemma_spoken(d, t0, t1, SentenceType::Rmc, f);
    assert(m[0] < 10 && m[1] < 10 && m[2] < 10 && m[3] < 10);
    lemma_angle_field(d.latitude, f, 2, lat, m[0], m[1], frac, 78, 83, south);
    lemma_angle_field(d.longitude, f, 4, lon, m[2], m[3], frac, 69, 87, west);
    assert(time[0] < 10 && time[1] < 10 && time[2] < 10 && time[3] < 10 && time[4] < 10 && time[5]
        < 10);
    assert(f[0].subrange(0, 2) =~= seq![(48 + time[0]) as u8, (48 + time[1]) as u8]);
    assert(f[0].subrange(2, 4) =~= seq![(48 + time[2]) as u8, (48 + time[3]) as u8]);
    assert(f[0].subrange(4, 6) =~= seq![(48 + time[4]) as u8, (48 + time[5]) as u8]);
    law_two_digits_are_read(time[0], time[1]);
    law_two_digits_are_read(time[2], time[3]);
    law_two_digits_are_read(time[4], time[5]);
    gps_number::law_written_number_is_read(false, speed, frac);
    gps_number::law_written_number_is_read(false, course, frac);
}

/// A course-and-speed sentence is read field by field: true course, magnetic course,
/// speed in knots and in kilometres per hour.
pub proof fn law_spoken_vtg_is_read(
    d: GpsView,
    t0: u8,
    t1: u8,
    f: Seq<Seq<u8>>,
    n: Seq<Seq<u8>>,
    frac: Seq<u8>,
)
    requires
        t0 != 42,
        t1 != 42,
        f.len() >= 7,
        are_fields(f),
        n.len() == 4,
        gps_number::are_digits(n[0]),
        gps_number::are_digits(n[1]),
        gps_number::are_digits(n[2]),
        gps_number::are_digits(n[3]),
        gps_number::are_digits(frac),
        f[0] == gps_number::written(false, n[0], frac),
        f[2] == gps_number::written(false, n[1], frac),
        f[4] == gps_number::written(false, n[2], frac),
        f[6] == gps_number::written(false, n[3], frac),
    ensures
        ({
            let g = after_sentence(d, spoken(t0, t1, SentenceType::Vtg, f));
            &&& is_decimal(g.course_true_deg, n[0], frac)
            &&& is_decimal(g.course_magnetic_deg, n[1], frac)
            &&& is_knots(g.ground_speed_ms, n[2], frac)
            &&& is_decimal(g.ground_speed_kmh, n[3], frac)
            &&& g.updated == d.updated | 4
            &&& g.latitude == d.latitude
            &&& g.longitude == d.longitude
        }),
{
    lemma_spoken(d, t0, t1, SentenceType::Vtg, f);
    gps_number::law_written_number_is_read(false, n[0], frac);
    gps_number::law_written_number_is_read(false, n[1], frac);
    gps_number::law_written_number_is_read(false, n[2], frac);
    gps_number::law_written_number_is_read(false, n[3], frac);
}

/// A satellite sentence is read field by field: the fix mode, and after the twelve
/// satellites the position, horizontal and vertical dilutions.
pub proof fn law_spoken_gsa_is_read(
    d: GpsView,
    t0: u8,
    t1: u8,
    f: Seq<Seq<u8>>,
    mode: u8,
    n: Seq<Seq<u8>>,
    frac: Seq<u8>,
)
    requires
        t0 != 42,
        t1 != 42,
        f.len() >= 17,
        are_fields(f),
        1 <= mode <= 3,
        n.len() == 3,
        gps_number::are_digits(n[0]),
        gps_number::are_digits(n[1]),
        gps_number::are_digits(n[2]),
        gps_number::are_digits(frac),
        f[1] == seq![(48 + mode) as u8],
        f[14] == gps_number::written(false, n[0], frac),
        f[15] == gps_number::written(false, n[1], frac),
        f[16] == gps_number::written(false, n[2], frac),
    ensures
        ({
            let g = after_sentence(d, spoken(t0, t1, SentenceType::Gsa, f));
            &&& mode == 1 ==> g.fix_mode == FixMode::NoFix
            &&& mode == 2 ==> g.fix_mode == FixMode::Fix2D
            &&& mode == 3 ==> g.fix_mode == FixMode::Fix3D
            &&& is_decimal(g.pdop, n[0], frac)
            &&& is_decimal(g.hdop, n[1], frac)
            &&& is_decimal(g.vdop, n[2], frac)
            &&& g.updated == d.updated | 8
            &&& g.satellites == d.satellites
            &&& g.fix == d.fix
        }),
{
    lemma_spoken(d, t0, t1, SentenceType::Gsa, f);
    gps_number::law_written_number_is_read(false, n[0], frac);
    gps_number::law_written_number_is_read(false, n[1], frac);
    gps_number::law_written_number_is_read(false, n[2], frac);
}

/// An empty field leaves what was known.
pub proof fn law_empty_fields_change_nothing(d: GpsView, f: Seq<Seq<u8>>)
    requires
        f.len() >= 9,
        forall|k: int| 0 <= k < f.len() ==> (#[trigger] f[k]).len() == 0,
    ensures
        after_gga(d, f).latitude == d.latitude,
        after_gga(d, f).longitude == d.longitude,
        after_gga(d, f).fix == d.fix,
        after_gga(d, f).hdop == d.hdop,
        after_gga(d, f).altitude_m == d.altitude_m,
        after_rmc(d, f).latitude == d.latitude,
        after_rmc(d, f).longitude == d.longitude,
        after_rmc(d, f).ground_speed_ms == d.ground_speed_ms,
        after_rmc(d, f).course_deg == d.course_deg,
        after_rmc(d, f).hour == d.hour,
        !after_rmc(d, f).rmc_valid,
        after_vtg(d, f).ground_speed_kmh == d.ground_speed_kmh,
        after_gsa(d, f).fix_mode == d.fix_mode,
{
    assert(f[0].len() == 0 && f[1].len() == 0 && f[2].len() == 0 && f[3].len() == 0 && f[4].len()
        == 0 && f[5].len() == 0 && f[6].len() == 0 && f[7].len() == 0 && f[8].len() == 0);
}

/// Bytes are XORed one after the other, so that any two equal ones cancel.
pub proof fn law_xor_of_parts(a: Seq<u8>, b: Seq<u8>, x: u8)
    ensures
        xor_of(a + b) == xor_of(a) ^ xor_of(b),
        xor_of(seq![x]) == x,
        xor_of(a.push(x).push(x)) == xor_of(a),
    decreases b.len(),
{
    let n = xor_of(a);
    assert(n ^ 0 == n && 0 ^ x == x && (n ^ x) ^ x == n) by (bit_vector);
    assert(seq![x].drop_last() =~= Seq::empty());
    assert(xor_of(seq![x].drop_last()) == 0);
    assert(a.push(x).push(x).drop_last() =~= a.push(x));
    assert(a.push(x).drop_last() =~= a);
    assert(xor_of(a.push(x)) == n ^ x);
    assert(xor_of(a.push(x).push(x)) == (n ^ x) ^ x);
    if b.len() == 0 {
        assert(a + b =~= a);
    } else {
        assert((a + b).drop_last() =~= a + b.drop_last());
        law_xor_of_parts(a, b.drop_last(), x);
        let m = xor_of(b.drop_last());
        let y = b.last();
        assert((n ^ m) ^ y == n ^ (m ^ y)) by (bit_vector);
    }
}

/// Digits and letters of either case are hexadecimal digits, and nothing else is.
pub proof fn law_hexadecimal_digits(v: u8, b: u8)
    requires
        v < 16,
    ensures
        v < 10 ==> hex_value((0x30 + v) as u8) == Some(v as int),
        v >= 10 ==> hex_value((0x41 + v - 10) as u8) == Some(v as int) && hex_value(
            (0x61 + v - 10) as u8,
        ) == Some(v as int),
        b < 0x30 || 0x39 < b < 0x41 || 0x46 < b < 0x61 || b > 0x66 ==> hex_value(b) is None,
{
}

/// What the quality and the mode of a fix are written as.
pub proof fn law_fix_codes(b: u8)
    ensures
        FixQuality::of_char(0x30) == FixQuality::NoFix,
        FixQuality::of_char(0x31) == FixQuality::GpsFix,
        FixQuality::of_char(0x32) == FixQuality::DgpsFix,
        FixQuality::of_char(0x33) == FixQuality::PpsFix,
        FixQuality::of_char(0x34) == FixQuality::RtkFixed,
        FixQuality::of_char(0x35) == FixQuality::RtkFloat,
        FixQuality::of_char(0x36) == FixQuality::Estimated,
        b < 0x30 || b > 0x36 ==> FixQuality::of_char(b) == FixQuality::NoFix,
        FixMode::of_char(0x32) == FixMode::Fix2D,
        FixMode::of_char(0x33) == FixMode::Fix3D,
        b < 0x32 || b > 0x33 ==> FixMode::of_char(b) == FixMode::NoFix,
{
}

/// A fix takes both: a quality other than none, and an active receiver.
pub proof fn law_fix_takes_both(fix: FixQuality)
    ensures
        !is_fixed(fix, false),
        !is_fixed(FixQuality::NoFix, true),
        !(fix is NoFix) ==> is_fixed(fix, true),
{
}

/// A sentence may have 83 bytes up to its line feed; one that gets longer is dropped. A
/// line feed ends what has begun, and nothing begins without a dollar sign.
pub proof fn law_sentence_lengths(pending: Seq<u8>, byte: u8)
    ensures
        pending.len() >= 83 ==> pending_after(pending, byte).len() == 0 && !completes(pending, byte),
        0 < pending.len() < 83 && byte != 0x0A ==> pending_after(pending, byte) == pending.push(byte)
            && !completes(pending, byte),
        0 < pending.len() < 83 ==> completes(pending, 0x0A) && pending_after(pending, 0x0A).len()
            == 0,
        pending.len() == 0 ==> !completes(pending, byte) && (pending_after(pending, byte).len() == 0
            <==> byte != 0x24),
{
}

} // verus!

//! Presents a NAV-PVT fix in the shape the position estimator consumes.
//!
//! No quantity is rounded: each keeps the resolution it was sent with.

use crate::drivers::gps_number;
use crate::drivers::gps_number::GpsNumber;
use crate::drivers::nmea;
use crate::drivers::ubx;
use vstd::prelude::*;

verus! {

/// Fix mode of a NAV-PVT. A fix that the receiver does not vouch for counts as
/// none, and neither dead reckoning nor a time-only solution is a position.
pub open spec fn fix_mode_of(u: ubx::GpsData) -> nmea::FixMode {
    if !u.fix_ok {
        nmea::FixMode::NoFix
    } else if u.fix_type.is_3d() {
        nmea::FixMode::Fix3D
    } else if u.fix_type == ubx::FixType::Fix2D {
        nmea::FixMode::Fix2D
    } else {
        nmea::FixMode::NoFix
    }
}

/// The record for a NAV-PVT.
///
/// The position dilution stands in for the horizontal one, which it is never
/// below. Course comes from the velocity, so that it agrees with the speed. One
/// NAV-PVT carries what all four sentences carry between them.
pub open spec fn converted(u: ubx::GpsData) -> nmea::GpsView {
    let pdop = gps_number::NumberView::Scaled { raw: u.pdop_e2 as i64, decimals: 2 };
    let course = gps_number::NumberView::Heading { north_mms: u.vel_n_mms, east_mms: u.vel_e_mms };
    let fixed = fix_mode_of(u) != nmea::FixMode::NoFix;
    nmea::GpsView {
        latitude: gps_number::NumberView::Scaled { raw: u.latitude_e7 as i64, decimals: 7 },
        longitude: gps_number::NumberView::Scaled { raw: u.longitude_e7 as i64, decimals: 7 },
        altitude_m: gps_number::NumberView::Scaled { raw: u.altitude_msl_mm as i64, decimals: 3 },
        ground_speed_ms: gps_number::NumberView::Scaled {
            raw: u.ground_speed_mms as i64,
            decimals: 3,
        },
        course_deg: course,
        course_true_deg: course,
        course_magnetic_deg: gps_number::zero_view(),
        ground_speed_kmh: gps_number::NumberView::Scaled {
            raw: (u.ground_speed_mms * 36) as i64,
            decimals: 4,
        },
        fix: if fixed {
            nmea::FixQuality::GpsFix
        } else {
            nmea::FixQuality::NoFix
        },
        fix_mode: fix_mode_of(u),
        satellites: u.satellites,
        hdop: pdop,
        pdop,
        vdop: pdop,
        hour: u.hour,
        minute: u.minute,
        second: u.second,
        rmc_valid: fixed,
        updated: 15,
    }
}

/// Converts a decoded NAV-PVT.
pub fn ubx_to_nmea(u: &ubx::GpsData) -> (g: nmea::GpsData)
    ensures
        g@ == converted(*u),
{
    let mut g = nmea::GpsData::new();
    g.latitude = GpsNumber::scaled(u.latitude_e7 as i64, 7);
    g.longitude = GpsNumber::scaled(u.longitude_e7 as i64, 7);
    g.altitude_m = GpsNumber::scaled(u.altitude_msl_mm as i64, 3);
    g.fix_mode = if !u.fix_ok {
        nmea::FixMode::NoFix
    } else {
        match u.fix_type {
            ubx::FixType::Fix3D | ubx::FixType::GnssDeadReckoning => nmea::FixMode::Fix3D,
            ubx::FixType::Fix2D => nmea::FixMode::Fix2D,
            _ => nmea::FixMode::NoFix,
        }
    };
    g.fix = if g.fix_mode == nmea::FixMode::NoFix {
        nmea::FixQuality::NoFix
    } else {
        nmea::FixQuality::GpsFix
    };
    g.rmc_valid = g.fix_mode != nmea::FixMode::NoFix;
    g.satellites = u.satellites;
    g.hdop = GpsNumber::scaled(u.pdop_e2 as i64, 2);
    g.pdop = GpsNumber::scaled(u.pdop_e2 as i64, 2);
    g.vdop = GpsNumber::scaled(u.pdop_e2 as i64, 2);
    g.ground_speed_ms = GpsNumber::scaled(u.ground_speed_mms as i64, 3);
    g.ground_speed_kmh = GpsNumber::scaled(u.ground_speed_mms as i64 * 36, 4);
    g.course_deg = GpsNumber::Heading { north_mms: u.vel_n_mms, east_mms: u.vel_e_mms };
    g.course_true_deg = GpsNumber::Heading { north_mms: u.vel_n_mms, east_mms: u.vel_e_mms };
    g.hour = u.hour;
    g.minute = u.minute;
    g.second = u.second;
    g.updated = 15;
    g
}

// ---- Laws ----

/// A record claims a fix exactly when the receiver vouches for a position, and
/// the same holds of a fix with altitude.
pub proof fn law_fix_is_honoured(u: ubx::GpsData)
    ensures
        (converted(u).fix != nmea::FixQuality::NoFix && converted(u).rmc_valid) == (u.fix_ok
            && u.fix_type.is_fix()),
        (converted(u).fix_mode == nmea::FixMode::Fix3D) == (u.fix_ok && u.fix_type.is_3d()),
{
}

/// One conversion marks every sentence as received.
pub proof fn law_every_sentence_is_marked(u: ubx::GpsData)
    ensures
        converted(u).updated & nmea::UPDATED_GGA != 0,
        converted(u).updated & nmea::UPDATED_RMC != 0,
        converted(u).updated & nmea::UPDATED_VTG != 0,
        converted(u).updated & nmea::UPDATED_GSA != 0,
{
    assert(15u8 & 1 != 0 && 15u8 & 2 != 0 && 15u8 & 4 != 0 && 15u8 & 8 != 0) by (bit_vector);
}

/// The record keeps enough to give back the position, the speed and the
/// horizontal velocity that were sent.
pub proof fn law_nothing_is_rounded(a: ubx::GpsData, b: ubx::GpsData)
    requires
        converted(a) == converted(b),
    ensures
        a.latitude_e7 == b.latitude_e7,
        a.longitude_e7 == b.longitude_e7,
        a.altitude_msl_mm == b.altitude_msl_mm,
        a.ground_speed_mms == b.ground_speed_mms,
        a.vel_n_mms == b.vel_n_mms,
        a.vel_e_mms == b.vel_e_mms,
        a.pdop_e2 == b.pdop_e2,
{
    let (x, y) = (converted(a), converted(b));
    assert(x.latitude->raw == y.latitude->raw);
    assert(x.longitude->raw == y.longitude->raw);
    assert(x.altitude_m->raw == y.altitude_m->raw);
    assert(x.ground_speed_ms->raw == y.ground_speed_ms->raw);
    assert(x.course_deg->north_mms == y.course_deg->north_mms);
    assert(x.course_deg->east_mms == y.course_deg->east_mms);
    assert(x.pdop->raw == y.pdop->raw);
}

/// Whether a number is `raw` times ten to the minus `decimals`.
pub open spec fn is_scaled(n: gps_number::NumberView, raw: int, decimals: int) -> bool {
    n matches gps_number::NumberView::Scaled { raw: r, decimals: d } && r == raw && d == decimals
}

/// Each quantity lands in its own field and in that field's unit: degrees with seven
/// decimals, metres and metres per second with three, kilometres per hour 3.6 times
/// as much, and a course from north and east velocity.
pub proof fn law_quantities_keep_their_place(u: ubx::GpsData)
    ensures
        is_scaled(converted(u).latitude, u.latitude_e7 as int, 7),
        is_scaled(converted(u).longitude, u.longitude_e7 as int, 7),
        is_scaled(converted(u).altitude_m, u.altitude_msl_mm as int, 3),
        is_scaled(converted(u).ground_speed_ms, u.ground_speed_mms as int, 3),
        is_scaled(converted(u).ground_speed_kmh, 36 * u.ground_speed_mms, 4),
        is_scaled(converted(u).hdop, u.pdop_e2 as int, 2),
        is_scaled(converted(u).pdop, u.pdop_e2 as int, 2),
        is_scaled(converted(u).vdop, u.pdop_e2 as int, 2),
        converted(u).course_deg matches gps_number::NumberView::Heading { north_mms, east_mms }
            && north_mms == u.vel_n_mms && east_mms == u.vel_e_mms,
        converted(u).course_true_deg == converted(u).course_deg,
        is_scaled(converted(u).course_magnetic_deg, 0, 0),
        converted(u).satellites == u.satellites,
        converted(u).hour == u.hour,
        converted(u).minute == u.minute,
        converted(u).second == u.second,
{
}

/// A vouched-for fix keeps its dimensions, and any other is none.
pub proof fn law_fix_keeps_its_dimensions(u: ubx::GpsData)
    ensures
        u.fix_ok && (u.fix_type == ubx::FixType::Fix3D || u.fix_type
            == ubx::FixType::GnssDeadReckoning) <==> converted(u).fix_mode
            == nmea::FixMode::Fix3D,
        u.fix_ok && u.fix_type == ubx::FixType::Fix2D <==> converted(u).fix_mode
            == nmea::FixMode::Fix2D,
        converted(u).fix_mode == nmea::FixMode::NoFix <==> converted(u).fix
            == nmea::FixQuality::NoFix,
        converted(u).rmc_valid <==> converted(u).fix_mode != nmea::FixMode::NoFix,
{
}

} // verus!

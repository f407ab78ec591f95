//! The stored configuration.

use fc_rusty::persist::flash;
use fc_rusty::persist::flash::{
    write_next, PersistError, WriteStep, CONFIG_OFFSET, CONFIG_SECTOR_LEN,
};
use fc_rusty::persist::record::{crc32, decode, encode, Config, RECORD_LEN};

#[test]
fn crc32_known_vector() {
    assert_eq!(crc32(b"123456789"), 0xCBF4_3926);
}

#[test]
fn record_len_is_flash_word_aligned() {
    assert_eq!(RECORD_LEN % 32, 0);
}

#[test]
fn default_is_uncalibrated() {
    let c = Config::default();
    assert!(!c.mag_calibrated);
    assert_eq!(c.mag_hard_iron_ut, [0.0f32.to_bits(); 3]);
    assert_eq!(f32::from_bits(c.declination_rad), 0.0);
}

#[test]
fn encode_decode_round_trips() {
    let c = Config {
        mag_hard_iron_ut: [12.5f32.to_bits(), (-3.25f32).to_bits(), 40.0f32.to_bits()],
        declination_rad: 0.0052f32.to_bits(),
        mag_calibrated: true,
    };
    let bytes = encode(&c);
    assert_eq!(decode(&bytes), Some(c));
    assert_eq!(&bytes[8..12], &12.5f32.to_le_bytes());
    assert_eq!(&bytes[20..24], &0.0052f32.to_le_bytes());
}

#[test]
fn decode_rejects_bad_magic() {
    let mut bytes = encode(&Config::default());
    bytes[0] ^= 0xFF;
    assert_eq!(decode(&bytes), None);
}

#[test]
fn decode_rejects_wrong_version() {
    let mut bytes = encode(&Config::default());
    bytes[4] = 0xFE;
    assert_eq!(decode(&bytes), None);
}

#[test]
fn decode_rejects_bad_crc() {
    let mut bytes = encode(&Config::default());
    bytes[24] ^= 0x01;
    assert_eq!(decode(&bytes), None);
}

#[test]
fn decode_rejects_blank_sector() {
    let bytes = [0xFFu8; RECORD_LEN];
    assert_eq!(decode(&bytes), None);
}

#[test]
fn decode_rejects_truncated_input() {
    let bytes = encode(&Config::default());
    assert_eq!(decode(&bytes[0..RECORD_LEN - 1]), None);
}

#[test]
fn any_corrupt_byte_is_noticed() {
    let good = encode(&Config::default());
    for i in 0..RECORD_LEN {
        let mut bad = good;
        bad[i] ^= 0x10;
        assert_eq!(decode(&bad), None, "byte {}", i);
    }
}

#[test]
fn a_sector_is_erased_before_it_is_written() {
    let erase = flash::write();
    assert_eq!(
        erase,
        WriteStep::Erase { from: CONFIG_OFFSET, to: CONFIG_OFFSET + CONFIG_SECTOR_LEN }
    );
    let record = write_next(erase, true);
    assert_eq!(record, WriteStep::Write { at: CONFIG_OFFSET });
    assert_eq!(write_next(record, true), WriteStep::Done { result: Ok(()) });
    assert_eq!(
        write_next(erase, false),
        WriteStep::Done { result: Err(PersistError::Erase) }
    );
    assert_eq!(
        write_next(record, false),
        WriteStep::Done { result: Err(PersistError::Write) }
    );
}

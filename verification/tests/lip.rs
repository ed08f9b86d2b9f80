use brew_server::lip::{decode_short_lip, sign_extend, to_hex, BitReader, LipError, LipPosition};

const UNIT: f64 = 8_388_608.0;

fn hex_to_bytes(s: &str) -> Vec<u8> {
    let mut digits = s.to_string();
    if digits.len() % 2 == 1 {
        digits.push('0');
    }
    (0..digits.len())
        .step_by(2)
        .map(|i| u8::from_str_radix(&digits[i..i + 2], 16).unwrap())
        .collect()
}

#[test]
fn decodes_airbus_lip_example() {
    let data = hex_to_bytes("0A0124DA52C411E200020");
    let pos = decode_short_lip(&data, 84).unwrap();

    assert!((pos.longitude as f64 / UNIT - 25.739014).abs() < 0.001);
    assert!((pos.latitude as f64 / UNIT - 62.232699).abs() < 0.001);
    assert_eq!(pos.velocity_raw, 0);
    assert_eq!(pos.direction, 0);
}

/// Packs numbers of given widths, most significant bit first.
fn pack(fields: &[(u32, u32)]) -> Vec<u8> {
    let mut bits: Vec<bool> = Vec::new();
    for &(value, width) in fields {
        for i in (0..width).rev() {
            bits.push((value >> i) & 1 == 1);
        }
    }
    bits.chunks(8)
        .map(|chunk| {
            let mut byte = 0u8;
            for (i, bit) in chunk.iter().enumerate() {
                if *bit {
                    byte |= 0x80 >> i;
                }
            }
            byte
        })
        .collect()
}

fn report(lon: i32, lat: i32, direction: u32) -> Vec<u8> {
    pack(&[
        (0x0A, 8),
        (0, 2),
        (3, 2),
        (lon as u32 & 0x1ff_ffff, 25),
        (lat as u32 & 0xff_ffff, 24),
        (5, 3),
        (101, 7),
        (direction, 4),
        (1, 1),
        (0xA7, 8),
    ])
}

#[test]
fn reads_every_field_of_a_report() {
    let pos = decode_short_lip(&report(-1, 1, 15), 84).unwrap();
    assert_eq!(
        pos,
        LipPosition {
            latitude: 90,
            longitude: -90,
            position_error: 5,
            velocity_raw: 101,
            direction: 3375,
            additional_data_type: 1,
            additional_data: 0xA7,
        }
    );
}

#[test]
fn coordinates_agree_with_fractions_of_a_circle() {
    for lon in [-16_777_216, -16_777_215, -1, 0, 1, 123_456, 16_777_215] {
        for lat in [-8_388_608, -8_388_607, -1, 0, 1, 654_321, 8_388_607] {
            let pos = decode_short_lip(&report(lon, lat, 3), 84).unwrap();
            assert_eq!(pos.longitude as f64 / UNIT, lon as f64 * 180.0 / 16_777_216.0);
            assert_eq!(pos.latitude as f64 / UNIT, lat as f64 * 90.0 / 8_388_608.0);
            assert_eq!(pos.direction as f64 / 10.0, 3.0 * 22.5);
            assert!((-90.0..=90.0).contains(&(pos.latitude as f64 / UNIT)));
            assert!((-180.0..=180.0).contains(&(pos.longitude as f64 / UNIT)));
        }
    }
}

#[test]
fn what_follows_a_report_is_ignored() {
    let mut data = report(77, -99, 2);
    let plain = decode_short_lip(&data, 84).unwrap();
    data[10] |= 0x0f;
    data.push(0xff);
    assert_eq!(decode_short_lip(&data, 84).unwrap(), plain);
    assert_eq!(decode_short_lip(&data, 96).unwrap(), plain);
    assert_eq!(decode_short_lip(&data, u16::MAX).unwrap(), plain);
}

#[test]
fn short_and_foreign_payloads_are_refused() {
    let data = report(1, 1, 0);
    assert_eq!(decode_short_lip(&data, 83), Err(LipError::TooShort(83)));
    assert_eq!(decode_short_lip(&[], 84), Err(LipError::UnexpectedProtocol(0)));
    assert_eq!(decode_short_lip(&[0x82, 0], 84), Err(LipError::UnexpectedProtocol(0x82)));
    assert_eq!(decode_short_lip(&[0x0A, 0x40], 84), Err(LipError::UnsupportedPduType(1)));
    assert_eq!(decode_short_lip(&[0x0A, 0xC0], 84), Err(LipError::UnsupportedPduType(3)));
}

#[test]
fn reports_that_break_off_name_the_missing_field() {
    let data = report(1, 1, 0);
    let missing = [
        (1, 8, 2),
        (2, 12, 25),
        (3, 12, 25),
        (4, 12, 25),
        (5, 37, 24),
        (6, 37, 24),
        (7, 37, 24),
        (8, 64, 7),
        (9, 71, 4),
        (10, 76, 8),
    ];
    for (bytes, pos, count) in missing {
        assert_eq!(
            decode_short_lip(&data[..bytes], 84),
            Err(LipError::Underrun { pos, count, bit_len: 8 * bytes })
        );
    }
    assert!(decode_short_lip(&data[..11], 84).is_ok());
}

#[test]
fn lip_errors_have_words() {
    assert_eq!(
        LipError::TooShort(83).message(),
        "LIP payload too short: 83 bits (need at least 84)"
    );
    assert_eq!(
        LipError::UnexpectedProtocol(0x0F).message(),
        "unexpected SDS protocol identifier: 0x0F"
    );
    assert_eq!(
        LipError::UnsupportedPduType(2).message(),
        "unsupported LIP PDU type 2 (only Short Location Report supported)"
    );
    assert_eq!(LipError::TooManyBits.message(), "cannot read more than 32 bits");
    assert_eq!(
        LipError::Underrun { pos: 76, count: 8, bit_len: 80 }.message(),
        "bitstream underrun at bit 76 reading 8 bits (length 80)"
    );
}

#[test]
fn reads_bits_across_bytes() {
    let data = [0b1010_0101, 0b1111_0000, 0xde, 0xad, 0xbe, 0xef];
    let mut bits = BitReader::new(&data, 48);
    assert_eq!(bits.read_u32(0), Ok(0));
    assert_eq!(bits.read_u32(3), Ok(0b101));
    assert_eq!(bits.read_u32(9), Ok(0b0_0101_1111));
    assert_eq!(bits.read_u32(4), Ok(0));
    assert_eq!(bits.read_u32(33), Err(LipError::TooManyBits));
    assert_eq!(bits.read_u32(32), Ok(0xdead_beef));
    assert_eq!(
        bits.read_u32(1),
        Err(LipError::Underrun { pos: 48, count: 1, bit_len: 48 })
    );
    assert_eq!(BitReader::new(&data, 1000).bit_len, 48);
    assert_eq!(BitReader::new(&data, 47).bit_len, 47);
    assert_eq!(BitReader::new(&data, usize::MAX).bit_len, 48);
}

#[test]
fn two_reads_join_into_one() {
    let data = [0x12, 0x34, 0x56, 0x78, 0x9a];
    for first in 0..=16usize {
        for more in 0..=16usize {
            let mut split = BitReader::new(&data, 40);
            let a = split.read_u32(first).unwrap();
            let b = split.read_u32(more).unwrap();
            let mut whole = BitReader::new(&data, 40);
            let all = whole.read_u32(first + more).unwrap();
            assert_eq!(all as u64, ((a as u64) << more) + b as u64);
        }
    }
}

#[test]
fn sign_extension_agrees_with_shifts() {
    for bits in 1..=32u8 {
        for value in [0u32, 1, 2, 0x7f_ffff, 0x80_0000, 0x1ff_ffff, 0x8000_0000, u32::MAX] {
            let shift = 32 - bits as u32;
            assert_eq!(sign_extend(value, bits), ((value << shift) as i32) >> shift);
        }
    }
}

#[test]
fn bytes_are_written_in_hexadecimal() {
    assert_eq!(to_hex(&[]), "");
    assert_eq!(to_hex(&[0x0A, 0x01, 0xFF, 0x9C]), "0A01FF9C");
    for b in 0..=255u8 {
        assert_eq!(to_hex(&[b]), format!("{:02X}", b));
    }
}

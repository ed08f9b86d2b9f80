use brew_server::aprs::{
    format_aprs_position, load_users, report_position, AprsGateway, LipOutcome, UserRecord,
};
use brew_server::config::AprsConfig;
use brew_server::lip::{LipError, LipPosition};

const UNIT: f64 = 8_388_608.0;

fn units(degrees: f64) -> i32 {
    (degrees * UNIT).round() as i32
}

#[test]
fn gated_position_uses_qar_gateway_path() {
    let packet = format_aprs_position(
        "CT1ABC",
        "CT1JIB-10",
        units(38.59095),
        units(-8.92166),
        '/',
        '>',
    );

    assert!(packet.starts_with("CT1ABC>APRS,qAR,CT1JIB-10:!"));
}

#[test]
fn own_position_uses_tcpip_path() {
    let packet = format_aprs_position(
        "CT1JIB-10",
        "CT1JIB-10",
        units(38.59095),
        units(-8.92166),
        '/',
        '>',
    );

    assert!(packet.starts_with("CT1JIB-10>APRS,TCPIP*:!"));
}

#[test]
fn writes_a_whole_packet() {
    let packet = format_aprs_position(
        " ct1abc\t",
        "CT1JIB-10",
        units(38.59095),
        units(-8.92166),
        '/',
        '>',
    );
    assert_eq!(packet, "CT1ABC>APRS,qAR,CT1JIB-10:!3835.46N/00855.30W>");
}

fn with_floats(latitude: f64, longitude: f64) -> String {
    let lat_abs = latitude.abs();
    let lat_deg = lat_abs.floor() as u32;
    let lat_min = (lat_abs - lat_deg as f64) * 60.0;
    let lat_hemi = if latitude >= 0.0 { 'N' } else { 'S' };
    let lon_abs = longitude.abs();
    let lon_deg = lon_abs.floor() as u32;
    let lon_min = (lon_abs - lon_deg as f64) * 60.0;
    let lon_hemi = if longitude >= 0.0 { 'E' } else { 'W' };
    format!(
        "A>APRS,qAR,B:!{:02}{:05.2}{}/{:03}{:05.2}{}>",
        lat_deg, lat_min, lat_hemi, lon_deg, lon_min, lon_hemi
    )
}

#[test]
fn coordinates_agree_with_floating_point() {
    let mut seed: u64 = 1;
    for _ in 0..20_000 {
        seed = seed.wrapping_mul(6364136223846793005).wrapping_add(1442695040888963407);
        let lat = ((seed >> 33) as i64 % 16_777_216 - 8_388_608) as i32 * 90;
        seed = seed.wrapping_mul(6364136223846793005).wrapping_add(1442695040888963407);
        let lon = ((seed >> 33) as i64 % 33_554_432 - 16_777_216) as i32 * 90;
        assert_eq!(
            format_aprs_position("A", "B", lat, lon, '/', '>'),
            with_floats(lat as f64 / UNIT, lon as f64 / UNIT)
        );
    }
}

#[test]
fn ties_go_to_the_even_hundredth() {
    // A step is a sixty-fourth of a degree, 93.75 hundredths of a minute: twice
    // an odd number of steps is a tie.
    let step = 1 << 17;
    for k in 0..=64i32 {
        let value = k * step;
        assert_eq!(
            format_aprs_position("A", "B", value, -value, '/', '>'),
            with_floats(value as f64 / UNIT, -value as f64 / UNIT)
        );
    }
    let packet = format_aprs_position("A", "B", 8_388_607, 0, '/', '>');
    assert_eq!(packet, "A>APRS,qAR,B:!0060.00N/00000.00E>");
}

#[test]
fn places_on_earth_have_one_width() {
    for lat in [-90, -45, 0, 9, 10, 89, 90] {
        for lon in [-180, -99, -9, 0, 10, 100, 180] {
            let packet =
                format_aprs_position("A", "B", lat * 8_388_608, lon * 8_388_608, '\\', 'k');
            assert_eq!(packet.len(), "A>APRS,qAR,B:!".len() + 19);
        }
    }
}

fn record(radio_id: u32, callsign: &str, fname: &str) -> UserRecord {
    UserRecord { radio_id, callsign: callsign.to_string(), fname: fname.to_string() }
}

#[test]
fn the_last_usable_record_of_a_number_holds() {
    let users = load_users(&vec![
        record(1, " ct1abc ", " Ana "),
        record(2, "   ", "Blank"),
        record(1, "ct2xyz\n", "Rui"),
        record(1, "", "None"),
        record(3, "é1a", "\u{3000}Eva\u{a0}"),
    ]);
    assert_eq!(users.len(), 2);
    assert_eq!(users[&1].callsign, "CT2XYZ");
    assert_eq!(users[&1].first_name, "Rui");
    assert_eq!(users[&3].callsign, "é1A");
    assert_eq!(users[&3].first_name, "Eva");
}

fn gateway() -> AprsGateway {
    let mut config = AprsConfig::default();
    config.login_callsign = "n0call".to_string();
    let mut g = AprsGateway::new(config);
    assert!(g.users.is_empty());
    let count = g.reload_users(Some(vec![record(7, "ct1abc", "Ana"), record(8, "N0CALL", "Gw")]));
    assert_eq!(count, Some(2));
    g
}

#[test]
fn a_failed_reload_keeps_the_users() {
    let mut g = gateway();
    assert_eq!(g.reload_users(None), None);
    assert_eq!(g.users.len(), 2);
    assert_eq!(g.reload_users(Some(vec![])), Some(0));
    assert!(g.users.is_empty());
}

const EXAMPLE: [u8; 11] = [0x0A, 0x01, 0x24, 0xDA, 0x52, 0xC4, 0x11, 0xE2, 0x00, 0x02, 0x00];

#[test]
fn reports_become_packets() {
    let g = gateway();
    let LipOutcome::Packet(packet) = g.handle_lip(7, &EXAMPLE, 84) else { panic!() };
    assert_eq!(packet, "CT1ABC>APRS,qAR,N0CALL:!6213.96N/02544.34E>");
    let LipOutcome::Packet(own) = g.handle_lip(8, &EXAMPLE, 84) else { panic!() };
    assert_eq!(own, "N0CALL>APRS,TCPIP*:!6213.96N/02544.34E>");
}

#[test]
fn reports_that_cannot_be_sent_are_told_apart() {
    let g = gateway();
    assert!(matches!(g.handle_lip(9, &EXAMPLE, 84), LipOutcome::UnknownSource));
    assert!(matches!(
        g.handle_lip(7, &EXAMPLE, 80),
        LipOutcome::Undecodable(LipError::TooShort(80))
    ));
    let mut zero = [0u8; 11];
    zero[0] = 0x0A;
    assert!(matches!(g.handle_lip(7, &zero, 84), LipOutcome::NoPosition));
}

#[test]
fn positions_off_the_earth_are_refused() {
    let config = AprsConfig::default();
    let mut position = LipPosition {
        latitude: 90 * 8_388_608,
        longitude: -180 * 8_388_608,
        position_error: 0,
        velocity_raw: 0,
        direction: 0,
        additional_data_type: 0,
        additional_data: 0,
    };
    assert!(matches!(report_position("A", &config, &position), LipOutcome::Packet(_)));
    position.latitude += 1;
    assert!(matches!(report_position("A", &config, &position), LipOutcome::OutOfRange));
    position.latitude = 0;
    position.longitude -= 1;
    assert!(matches!(report_position("A", &config, &position), LipOutcome::OutOfRange));
    position.longitude = 0;
    assert!(matches!(report_position("A", &config, &position), LipOutcome::NoPosition));
}

use geoconvert::parse::parse_reference;
use geoconvert::{Error, Mgrs, UtmUps};

fn parse(s: &str) -> Mgrs {
    Mgrs::parse_str(s).unwrap()
}

fn band_of(m: &Mgrs) -> i32 {
    m.latitude_band_estimate().unwrap()
}

fn reformat(s: &str, band: i32) -> String {
    parse(s).format_in_band(band).unwrap()
}

fn is_invalid_mgrs(r: &Result<Mgrs, Error>) -> bool {
    matches!(r, Err(Error::InvalidMgrs(_)))
}

#[test]
fn parses_empire_state_reference() {
    let m = parse("18TWL856641113154");
    assert_eq!(m.zone(), 18);
    assert!(m.is_north());
    assert!(m.is_utm());
    assert_eq!(m.precision(), 6);
    // 585664.15 m and 4511315.45 m: the centre of the 10 cm cell.
    assert_eq!(m.easting(), 585_664_150_000_000);
    assert_eq!(m.northing(), 4_511_315_450_000_000);
}

#[test]
fn writes_empire_state_reference() {
    let m = parse("18TWL856641113154");
    assert_eq!(m.latitude_band_estimate(), Some(5));
    assert_eq!(m.format_in_band(5).unwrap(), "18TWL856641113154");
}

#[test]
fn empire_state_utm_point_gives_reference() {
    let utm = UtmUps::create(18, true, 585_664_121_000_000, 4_511_315_422_000_000).unwrap();
    let m = Mgrs::from_utmups(&utm, 6);
    assert_eq!(m.format_in_band(band_of(&m)).unwrap(), "18TWL856641113154");
    let m5 = utm.to_mgrs(5);
    assert_eq!(m5.format_in_band(band_of(&m5)).unwrap(), "18TWL8566411315");
}

#[test]
fn parses_ups_reference() {
    let m = parse("YXL6143481146");
    assert_eq!(m.zone(), 0);
    assert!(!m.is_utm());
    assert!(m.is_north());
    assert_eq!(m.precision(), 5);
    // Column X of band Y is tile 13 + 4 = 17, row L is tile 13 + 10 = 23.
    assert_eq!(m.easting(), 1_761_434_500_000_000);
    assert_eq!(m.northing(), 2_381_146_500_000_000);
    assert_eq!(m.format_in_band(0).unwrap(), "YXL6143481146");
}

#[test]
fn lower_case_reference_is_written_upper_case() {
    let m = parse("18twl856641113154");
    assert_eq!(m.format_in_band(5).unwrap(), "18TWL856641113154");
}

#[test]
fn utm_round_trip_every_precision() {
    let (ne, nn) = ("85664123456", "11315412345");
    let (se, sn) = ("12345678909", "87654321012");
    for p in 0..=11usize {
        let n = format!("18TWL{}{}", &ne[..p], &nn[..p]);
        assert_eq!(reformat(&n, 5), n);
        let s = format!("33HYC{}{}", &se[..p], &sn[..p]);
        assert_eq!(reformat(&s, -5), s);
    }
}

#[test]
fn ups_round_trip_every_precision() {
    let digits = "1234567890123456789012";
    for p in 0..=11usize {
        for head in ["YXL", "ZGC", "AJA", "BRZ"] {
            let s = format!("{}{}{}", head, &digits[0..p], &digits[11..11 + p]);
            assert_eq!(reformat(&s, 0), s);
        }
    }
}

#[test]
fn grid_zone_designator_alone() {
    let m = parse("18T");
    assert_eq!(m.precision(), -1);
    assert_eq!(m.easting(), 500_000 * 1_000_000_000);
    assert_eq!(m.northing(), 4_900_000 * 1_000_000_000);
    assert_eq!(m.format_in_band(5).unwrap(), "18T");
    let v = parse("31V");
    assert_eq!(v.easting(), 400_000 * 1_000_000_000);
    assert_eq!(v.format_in_band(7).unwrap(), "31V");
    let z = parse("Z");
    assert_eq!(z.easting(), 2_400_000 * 1_000_000_000);
    assert_eq!(z.northing(), 2_000_000 * 1_000_000_000);
    assert_eq!(z.format_in_band(0).unwrap(), "Z");
}

#[test]
fn precision_zero_is_tile_centre() {
    let m = parse("18TWL");
    assert_eq!(m.precision(), 0);
    assert_eq!(m.easting(), 550_000 * 1_000_000_000);
    assert_eq!(m.northing(), 4_550_000 * 1_000_000_000);
    assert_eq!(m.format_in_band(5).unwrap(), "18TWL");
}

#[test]
fn micrometre_precision() {
    let m = parse("18TWL8566412345611315412345");
    assert_eq!(m.precision(), 11);
    assert_eq!(m.easting(), 585_664_123_456_500);
    assert_eq!(m.format_in_band(5).unwrap(), "18TWL8566412345611315412345");
}

#[test]
fn invalid_prefix_is_refused() {
    match Mgrs::parse_str("INVALID") {
        Err(Error::InvalidMgrs(msg)) => assert_eq!(msg, "Starts with 'INV': INVALID"),
        other => panic!("unexpected {:?}", other),
    }
}

#[test]
fn malformed_references_are_refused() {
    for s in [
        "", "18", "0T", "61T", "123T", "18I", "18TW", "18TAL", "18TWW", "18TWL123",
        "18TWL12a4", "18TWL123456789012345678901234", "AAA", "YAL", "18TWL856\u{e9}",
    ] {
        assert!(is_invalid_mgrs(&Mgrs::parse_str(s)), "{s}");
    }
}

#[test]
fn block_outside_band_is_refused() {
    // Row A of zone 18 lies near 4.0e6 m or 6.0e6 m: neither is in band T.
    assert!(is_invalid_mgrs(&Mgrs::parse_str("18TWA")));
}

#[test]
fn parse_reference_reads_upper_case_bytes() {
    let m = parse_reference(&b"18TWL856641113154".to_vec()).unwrap();
    assert_eq!(m.easting(), 585_664_150_000_000);
    assert!(matches!(parse_reference(&b"18twl".to_vec()), Err(Error::InvalidMgrs(_))));
}

#[test]
fn create_checks_precision_and_zone() {
    let e = Mgrs::create(18, true, 585_664_121_000_000, 4_511_315_422_000_000, 12);
    assert_eq!(e.unwrap_err(), Error::InvalidPrecision(12));
    let e = Mgrs::create(61, true, 585_664_121_000_000, 4_511_315_422_000_000, 6);
    assert_eq!(e.unwrap_err(), Error::InvalidZone(61));
    let e = Mgrs::create(18, true, 985_664_121_000_000, 4_511_315_422_000_000, 6);
    assert_eq!(e.unwrap_err(), Error::InvalidMgrs(
        "Easting 985.66km not in MGRS/UTM range for N hemisphere [100.00km, 900.00km]".to_string()
    ));
    let e = Mgrs::create(18, true, 585_664_121_000_000, 9_600_000_000_000_000, 6);
    assert_eq!(e.unwrap_err(), Error::InvalidMgrs(
        "Northing 9600.00km not in MGRS/UTM range for N hemisphere [-9000.00km, 9500.00km]".to_string()
    ));
    let m = Mgrs::create(18, true, 585_664_121_000_000, 4_511_315_422_000_000, 6).unwrap();
    assert_eq!(m.to_utmups().easting(), 585_664_121_000_000);
}

#[test]
fn set_precision_checks_range() {
    let mut m = parse("18TWL856641113154");
    assert!(m.set_precision(7).is_ok());
    assert_eq!(m.precision(), 7);
    assert_eq!(m.set_precision(0), Err(Error::InvalidPrecision(0)));
    assert_eq!(m.set_precision(12), Err(Error::InvalidPrecision(12)));
    assert_eq!(m.precision(), 7);
    assert_eq!(m.format_in_band(5).unwrap(), "18TWL85664151131545");
}

#[test]
fn format_errors() {
    let mut m = parse("18TWL856641113154");
    assert_eq!(m.format_in_band(4), Err(Error::InvalidMgrs(
        "Latitude band is inconsistent with the UTM coordinates".to_string()
    )));
    m.precision = 12;
    assert_eq!(m.format_in_band(5), Err(Error::InvalidPrecision(12)));
    m.precision = 6;
    m.utm.zone = 70;
    assert_eq!(m.format_in_band(5), Err(Error::InvalidZone(70)));
    m.utm.zone = 18;
    m.utm.easting = 950_000 * 1_000_000_000;
    assert!(matches!(m.format_in_band(5), Err(Error::InvalidMgrs(_))));
}

#[test]
fn equator_and_upper_edge() {
    // A northing on the equator stored as southern stays in band M.
    let m = Mgrs::from_utmups(&UtmUps { zone: 31, northp: false, easting: 500_000_000_000_000, northing: 10_000_000_000_000_000 }, 5);
    assert_eq!(m.latitude_band_estimate(), Some(-1));
    assert_eq!(m.format_in_band(-1).unwrap(), "31MEV0000099999");
    // A northern northing on the equator is folded to the southern window,
    // where band M does not hold its block; band N does.
    let n = Mgrs::from_utmups(&UtmUps { zone: 31, northp: true, easting: 500_000_000_000_000, northing: 0 }, 5);
    assert_eq!(n.latitude_band_estimate(), Some(-1));
    assert!(matches!(n.format_in_band(-1), Err(Error::InvalidMgrs(_))));
    assert_eq!(n.format_in_band(0).unwrap(), "31NEA0000000000");
    // An easting on the upper end of the window moves just below it.
    let e = Mgrs::from_utmups(&UtmUps { zone: 31, northp: true, easting: 900_000_000_000_000, northing: 4_000_000_000_000_000 }, 2);
    assert_eq!(e.format_in_band(band_of(&e)).unwrap(), "31SHA9900");
}

#[test]
fn block_across_band_seam_takes_band_of_its_latitude() {
    // Row U of zone 18 (5.3e6 to 5.4e6 m) lies in bands T and U; this cell,
    // near the top of the block, is north of 48 degrees: band U.
    let m = parse("18TWU0000099999");
    assert_eq!(m.northing(), 5_399_999_500_000_000);
    assert_eq!(m.latitude_band_estimate(), Some(6));
    assert_eq!(m.format_in_band(6).unwrap(), "18UWU0000099999");
    assert_eq!(m.format_in_band(5).unwrap(), "18TWU0000099999");
}

#[test]
fn single_digit_zone_is_written_with_two() {
    let m = parse("4QFJ12345678");
    assert_eq!(m.zone(), 4);
    assert_eq!(m.format_in_band(band_of(&m)).unwrap(), "04QFJ12345678");
}

fn message(s: &str) -> String {
    match Mgrs::parse_str(s) {
        Err(Error::InvalidMgrs(msg)) => msg,
        other => panic!("unexpected {:?}", other),
    }
}

#[test]
fn zone_zero_is_ups() {
    let z = parse("Z");
    assert_eq!(parse("0Z"), z);
    assert_eq!(parse("00Z"), z);
    let m = parse("0yrc1234");
    assert_eq!(m.zone(), 0);
    assert!(m.is_north());
    assert_eq!(m, parse("YRC1234"));
    assert_eq!(m.format_in_band(0).unwrap(), "YRC1234");
    assert_eq!(message("0T"), "Band letter not in UPS set ABYZ: T");
}

#[test]
fn parse_messages_name_the_fault() {
    assert_eq!(message("18I"), "Band letter not in UTM set CDEFGHJKLMNPQRSTUVWX: I");
    assert_eq!(message("61T"), "Zone not in [0,60]: 61");
    assert_eq!(message("123T"), "More than 2 digits at start of MGRS 123T");
    assert_eq!(message("18"), "Too short: 18");
    assert_eq!(message("18TW"), "Missing row letter in 18TW");
    assert_eq!(message("18TAL"), "Column letter not in zone set STUVWXYZ: A");
    assert_eq!(message("AAA"), "Column letter not in UPS band A set JKLPQRSTUXYZ: A");
    assert_eq!(message("18TWW"), "Row letter not in UTM set ABCDEFGHJKLMNPQRSTUV: W");
    assert_eq!(message("YRQ"), "Row letter not in UPS N set ABCDEFGHJKLMNP: Q");
    assert_eq!(message("01NAL"), "Block not in zone/band: 01NAL");
    assert_eq!(message("18TWL12a4"), "Encountered a non-digit in 12A4");
    assert_eq!(message("18TWL123"), "Not an even number of digits in 123");
    assert_eq!(message("18TWL123456789012345678901234"), "More than 22 digits in 123456789012345678901234");
    assert_eq!(message("18TWL856\u{e9}"), "String contains non-ASCII characters");
}

use geoconvert::utm::{false_easting, false_northing};
use geoconvert::{central_meridian, standard_zone, to_latitude_band, utm_row, Error, UtmUps};

#[test]
fn norway_exception() {
    assert_eq!(standard_zone(61, 7), 32);
    assert_eq!(standard_zone(61, 2), 31);
    assert_eq!(standard_zone(55, 7), 32);
    assert_eq!(standard_zone(64, 7), 32);
}

#[test]
fn svalbard_exception() {
    assert_eq!(standard_zone(78, 10), 33);
    assert_eq!(standard_zone(78, 0), 31);
    assert_eq!(standard_zone(78, 21), 35);
    assert_eq!(standard_zone(78, 33), 37);
    assert_eq!(standard_zone(78, 42), 38);
    assert_eq!(standard_zone(71, 10), 32);
}

#[test]
fn standard_zones() {
    assert_eq!(standard_zone(40, -74), 18);
    assert_eq!(standard_zone(0, -180), 1);
    assert_eq!(standard_zone(0, 180), 1);
    assert_eq!(standard_zone(0, 179), 60);
    assert_eq!(standard_zone(-33, 151), 56);
}

#[test]
fn utm_ups_boundary() {
    assert_eq!(standard_zone(84, 10), 0);
    assert_eq!(standard_zone(83, 10), 33);
    assert_eq!(standard_zone(-80, 10), 32);
    assert_eq!(standard_zone(-81, 10), 0);
    assert_eq!(standard_zone(90, 0), 0);
    assert_eq!(standard_zone(-90, 0), 0);
}

#[test]
fn latitude_bands() {
    assert_eq!(to_latitude_band(40), 5);
    assert_eq!(to_latitude_band(0), 0);
    assert_eq!(to_latitude_band(-1), -1);
    assert_eq!(to_latitude_band(-80), -10);
    assert_eq!(to_latitude_band(-90), -10);
    assert_eq!(to_latitude_band(72), 9);
    assert_eq!(to_latitude_band(84), 9);
}

#[test]
fn row_resolution() {
    // Row letter L of zone 18 (index 5 after the shift) in band T.
    assert_eq!(utm_row(5, 4, 5), 45);
    // A block that does not lie in the band.
    assert_eq!(utm_row(5, 4, 15), 100);
    // The seam blocks at 71e5 and 80e5.
    assert_eq!(utm_row(8, 2, 10), 70);
    assert_eq!(utm_row(7, 1, 11), 71);
    assert_eq!(utm_row(-9, 2, 9), -71);
}

#[test]
fn meridians_and_offsets() {
    assert_eq!(central_meridian(18), -75);
    assert_eq!(central_meridian(1), -177);
    assert_eq!(central_meridian(60), 177);
    assert_eq!(false_easting(true), 500_000);
    assert_eq!(false_easting(false), 2_000_000);
    assert_eq!(false_northing(true, true), 0);
    assert_eq!(false_northing(true, false), 10_000_000);
    assert_eq!(false_northing(false, true), 2_000_000);
}

#[test]
fn utm_create_checks() {
    let u = UtmUps::create(18, true, 585_664_121_000_000, 4_511_315_422_000_000).unwrap();
    assert_eq!(u.zone(), 18);
    assert!(u.is_north());
    assert_eq!(u.easting(), 585_664_121_000_000);
    assert_eq!(u.northing(), 4_511_315_422_000_000);
    assert_eq!(UtmUps::create(61, true, 0, 0).unwrap_err(), Error::InvalidZone(61));
    assert_eq!(UtmUps::create(-10, true, 0, 0).unwrap_err(), Error::InvalidZone(-10));
    let far = UtmUps::create(18, true, 1_100_000_000_000_000, 4_511_315_422_000_000);
    assert_eq!(far.unwrap_err(), Error::InvalidUtmCoords(
        "Easting 1100.00km not in UTM range for N hemisphere [0.00km, 1000.00km]".to_string()
    ));
    let south = UtmUps::create(18, false, 500_000_000_000_000, 100_000_000_000_000);
    assert_eq!(south.unwrap_err(), Error::InvalidUtmCoords(
        "Northing 100.00km not in UTM range for S hemisphere [900.00km, 19600.00km]".to_string()
    ));
    assert!(UtmUps::create(0, true, 2_000_000_000_000_000, 2_000_000_000_000_000).is_ok());
    assert_eq!(UtmUps::from_mgrs(&u.to_mgrs(3)), u);
}

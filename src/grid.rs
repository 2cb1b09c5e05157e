//! Grid constants, the MGRS letter alphabets, latitude bands and UTM zone
//! selection.
use vstd::prelude::*;

verus! {

/// Side of an MGRS 100 km tile, in metres.
pub const TILE: i32 = 100_000;
/// Side of an MGRS 100 km tile, in nanometres (the unit of eastings and northings).
pub const TILE_NM: i64 = 100_000_000_000_000;
/// Nanometres per micrometre, the finest MGRS resolution.
pub const NM_PER_UM: i64 = 1000;
/// Micrometres per tile.
pub const TILE_UM: i64 = 100_000_000_000;
/// Largest number of digit pairs in an MGRS reference.
pub const MAX_PRECISION: i32 = 11;

/// Zone number that stands for UPS.
pub const UPS: i32 = 0;
pub const MINZONE: i32 = 0;
pub const MAXZONE: i32 = 60;
pub const MINUTMZONE: i32 = 1;
pub const MAXUTMZONE: i32 = 60;

pub const MINUTMCOL: i32 = 1;
pub const MAXUTMCOL: i32 = 9;
pub const MINUTM_S_ROW: i32 = 10;
pub const MAXUTM_S_ROW: i32 = 100;
pub const MINUTM_N_ROW: i32 = 0;
pub const MAXUTM_N_ROW: i32 = 95;
pub const MINUPS_S_IND: i32 = 8;
pub const MAXUPS_S_IND: i32 = 32;
pub const MINUPS_N_IND: i32 = 13;
pub const MAXUPS_N_IND: i32 = 27;
pub const UPSEASTING: i32 = 20;
pub const UTMEASTING: i32 = 5;
pub const UTM_ROW_PERIOD: i32 = 20;
pub const UTM_EVEN_ROW_SHIFT: i32 = 5;

// ---------------------------------------------------------------------------
// Letters.
//
// Every MGRS alphabet is a run of one of two alphabets: the 24 letters A..Z
// without I and O, or the 18 letters of UPS columns, which also leave out
// D, E, M, N, V and W.
// ---------------------------------------------------------------------------

/// Position of `c` in `ABCDEFGHJKLMNPQRSTUVWXYZ`, or -1.
pub open spec fn alpha_index(c: u8) -> int {
    if 65 <= c <= 72 {
        c - 65
    } else if 74 <= c <= 78 {
        c - 66
    } else if 80 <= c <= 90 {
        c - 67
    } else {
        -1
    }
}

/// Letter at position `i` of `ABCDEFGHJKLMNPQRSTUVWXYZ`.
pub open spec fn alpha_letter(i: int) -> u8 {
    if i < 8 {
        (65 + i) as u8
    } else if i < 13 {
        (66 + i) as u8
    } else {
        (67 + i) as u8
    }
}

/// Position of `c` in `ABCFGHJKLPQRSTUXYZ`, or -1.
pub open spec fn ups_alpha_index(c: u8) -> int {
    if 65 <= c <= 67 {
        c - 65
    } else if 70 <= c <= 72 {
        c - 67
    } else if 74 <= c <= 76 {
        c - 68
    } else if 80 <= c <= 85 {
        c - 71
    } else if 88 <= c <= 90 {
        c - 73
    } else {
        -1
    }
}

/// Letter at position `i` of `ABCFGHJKLPQRSTUXYZ`.
pub open spec fn ups_alpha_letter(i: int) -> u8 {
    if i < 3 {
        (65 + i) as u8
    } else if i < 6 {
        (67 + i) as u8
    } else if i < 9 {
        (68 + i) as u8
    } else if i < 15 {
        (71 + i) as u8
    } else {
        (73 + i) as u8
    }
}

/// Index of `c` in the run of `len` letters of the 24-letter alphabet that
/// starts at `start`, or -1.
pub open spec fn run_index(c: u8, start: int, len: int) -> int {
    let i = alpha_index(c);
    if start <= i < start + len {
        i - start
    } else {
        -1
    }
}

/// Index of `c` in the run of `len` UPS column letters that starts at `start`, or -1.
pub open spec fn ups_run_index(c: u8, start: int, len: int) -> int {
    let i = ups_alpha_index(c);
    if start <= i < start + len {
        i - start
    } else {
        -1
    }
}

/// UTM latitude band letters `CDEFGHJKLMNPQRSTUVWX`: index of `c`, or -1.
pub open spec fn utm_band_index(c: u8) -> int {
    run_index(c, 2, 20)
}

pub open spec fn utm_band_letter(i: int) -> u8 {
    alpha_letter(i + 2)
}

/// UPS band letters `ABYZ`: index of `c`, or -1.
pub open spec fn ups_band_index(c: u8) -> int {
    if c == 65 {
        0
    } else if c == 66 {
        1
    } else if c == 89 {
        2
    } else if c == 90 {
        3
    } else {
        -1
    }
}

pub open spec fn ups_band_letter(i: int) -> u8 {
    if i == 0 {
        65
    } else if i == 1 {
        66
    } else if i == 2 {
        89
    } else {
        90
    }
}

/// UTM column letters of a zone, by `(zone - 1) % 3`: `ABCDEFGH`, `JKLMNPQR`, `STUVWXYZ`.
pub open spec fn utm_col_index(set: int, c: u8) -> int {
    run_index(c, 8 * set, 8)
}

pub open spec fn utm_col_letter(set: int, i: int) -> u8 {
    alpha_letter(8 * set + i)
}

/// UTM row letters `ABCDEFGHJKLMNPQRSTUV`.
pub open spec fn utm_row_index(c: u8) -> int {
    run_index(c, 0, 20)
}

pub open spec fn utm_row_letter(i: int) -> u8 {
    alpha_letter(i)
}

/// Start of the UPS column letters of band `band` in `ABCFGHJKLPQRSTUXYZ`:
/// `JKLPQRSTUXYZ`, `ABCFGHJKLPQR`, `RSTUXYZ`, `ABCFGHJ`.
pub open spec fn ups_col_start(band: int) -> int {
    if band == 0 {
        6
    } else if band == 1 {
        0
    } else if band == 2 {
        11
    } else {
        0
    }
}

pub open spec fn ups_col_len(band: int) -> int {
    if band == 0 || band == 1 {
        12
    } else {
        7
    }
}

pub open spec fn ups_col_index(band: int, c: u8) -> int {
    ups_run_index(c, ups_col_start(band), ups_col_len(band))
}

pub open spec fn ups_col_letter(band: int, i: int) -> u8 {
    ups_alpha_letter(ups_col_start(band) + i)
}

/// UPS row letters: `ABCDEFGHJKLMNPQRSTUVWXYZ` in the south, `ABCDEFGHJKLMNP` in the north.
pub open spec fn ups_row_len(northp: bool) -> int {
    if northp {
        14
    } else {
        24
    }
}

pub open spec fn ups_row_index(northp: bool, c: u8) -> int {
    run_index(c, 0, ups_row_len(northp))
}

pub open spec fn ups_row_letter(i: int) -> u8 {
    alpha_letter(i)
}

pub open spec fn is_digit(c: u8) -> bool {
    48 <= c <= 57
}

pub open spec fn digit_letter(d: int) -> u8 {
    (48 + d) as u8
}

pub proof fn lemma_alpha_letter_of_index(c: u8)
    requires
        alpha_index(c) >= 0,
    ensures
        alpha_letter(alpha_index(c)) == c,
        alpha_index(c) < 24,
{
}

pub proof fn lemma_ups_alpha_letter_of_index(c: u8)
    requires
        ups_alpha_index(c) >= 0,
    ensures
        ups_alpha_letter(ups_alpha_index(c)) == c,
        ups_alpha_index(c) < 18,
{
}

/// Position of `c` in `ABCDEFGHJKLMNPQRSTUVWXYZ`, or -1.
pub fn alpha_position(c: u8) -> (r: i32)
    ensures
        r == alpha_index(c),
{
    if 65 <= c && c <= 72 {
        (c - 65) as i32
    } else if 74 <= c && c <= 78 {
        (c - 66) as i32
    } else if 80 <= c && c <= 90 {
        (c - 67) as i32
    } else {
        -1
    }
}

/// Position of `c` in `ABCFGHJKLPQRSTUXYZ`, or -1.
pub fn ups_alpha_position(c: u8) -> (r: i32)
    ensures
        r == ups_alpha_index(c),
{
    if 65 <= c && c <= 67 {
        (c - 65) as i32
    } else if 70 <= c && c <= 72 {
        (c - 67) as i32
    } else if 74 <= c && c <= 76 {
        (c - 68) as i32
    } else if 80 <= c && c <= 85 {
        (c - 71) as i32
    } else if 88 <= c && c <= 90 {
        (c - 73) as i32
    } else {
        -1
    }
}

/// Letter at position `i` of `ABCDEFGHJKLMNPQRSTUVWXYZ`.
pub fn alpha_at(i: i32) -> (r: u8)
    requires
        0 <= i < 24,
    ensures
        r == alpha_letter(i as int),
{
    if i < 8 {
        (65 + i) as u8
    } else if i < 13 {
        (66 + i) as u8
    } else {
        (67 + i) as u8
    }
}

/// Letter at position `i` of `ABCFGHJKLPQRSTUXYZ`.
pub fn ups_alpha_at(i: i32) -> (r: u8)
    requires
        0 <= i < 18,
    ensures
        r == ups_alpha_letter(i as int),
{
    if i < 3 {
        (65 + i) as u8
    } else if i < 6 {
        (67 + i) as u8
    } else if i < 9 {
        (68 + i) as u8
    } else if i < 15 {
        (71 + i) as u8
    } else {
        (73 + i) as u8
    }
}

/// Index of `c` in a run of the 24-letter alphabet, or -1.
pub fn run_position(c: u8, start: i32, len: i32) -> (r: i32)
    requires
        0 <= start,
        0 <= len,
        start + len <= 24,
    ensures
        r == run_index(c, start as int, len as int),
{
    let i = alpha_position(c);
    if start <= i && i < start + len {
        i - start
    } else {
        -1
    }
}

/// Index of `c` in a run of the UPS column alphabet, or -1.
pub fn ups_run_position(c: u8, start: i32, len: i32) -> (r: i32)
    requires
        0 <= start,
        0 <= len,
        start + len <= 18,
    ensures
        r == ups_run_index(c, start as int, len as int),
{
    let i = ups_alpha_position(c);
    if start <= i && i < start + len {
        i - start
    } else {
        -1
    }
}

// ---------------------------------------------------------------------------
// Latitude bands and zones.
// ---------------------------------------------------------------------------

/// The latitude band index, from -10 (band C) to 9 (band X), of a latitude
/// whose floor in whole degrees is `lat_int`.
pub open spec fn latitude_band(lat_int: int) -> int {
    let b = (lat_int + 80) / 8 - 10;
    if b < -10 {
        -10
    } else if b > 9 {
        9
    } else {
        b
    }
}

/// Latitude band index of a latitude given by its floor in whole degrees:
/// `clamp(floor((lat_int + 80) / 8) - 10, -10, 9)`.
pub fn to_latitude_band(lat_int: i32) -> (r: i32)
    ensures
        r == latitude_band(lat_int as int),
        -10 <= r <= 9,
{
    let t = lat_int as i64 + 80;
    let q = if t >= 0 {
        t / 8
    } else {
        -((-t + 7) / 8)
    };
    let b = q - 10;
    if b < -10 {
        -10
    } else if b > 9 {
        9
    } else {
        b as i32
    }
}

/// Whether a latitude with floor `lat_int` lies in the UTM domain `[-80, 84)`.
pub open spec fn in_utm_domain(lat_int: int) -> bool {
    -80 <= lat_int < 84
}

/// The standard zone of a point: UPS (0) outside the UTM domain, else the
/// 6-degree zone `floor((lon + 186) / 6)`, overridden by the Norway exception
/// (band 7, zone 31, `lon >= 3` gives zone 32) and the Svalbard exception
/// (band 9, `0 <= lon < 42` gives the odd zone `2 * floor((lon + 183) / 12) + 1`).
/// `lon_int` is the floor of the longitude reduced to `[-180, 180)`.
pub open spec fn zone_of(lat_int: int, lon_int: int) -> int {
    if !in_utm_domain(lat_int) {
        UPS as int
    } else {
        let base = (lon_int + 186) / 6;
        let band = latitude_band(lat_int);
        if band == 7 && base == 31 && lon_int >= 3 {
            32
        } else if band == 9 && 0 <= lon_int < 42 {
            2 * ((lon_int + 183) / 12) + 1
        } else {
            base
        }
    }
}

/// The standard UTM/UPS zone of a point, from the floors in whole degrees
/// of its latitude and of its longitude reduced to `(-180, 180]`; a
/// longitude floor of 180 is the same meridian as -180.
pub fn standard_zone(lat_int: i32, lon_int: i32) -> (r: i32)
    requires
        -90 <= lat_int <= 90,
        -180 <= lon_int <= 180,
    ensures
        r == zone_of(lat_int as int, if lon_int == 180 { -180 } else { lon_int as int }),
        in_utm_domain(lat_int as int) <==> 1 <= r <= 60,
        !in_utm_domain(lat_int as int) <==> r == UPS,
{
    if !(-80 <= lat_int && lat_int < 84) {
        return UPS;
    }
    let lon = if lon_int == 180 {
        -180
    } else {
        lon_int
    };
    let mut zone = (lon + 186) / 6;
    let band = to_latitude_band(lat_int);
    if band == 7 && zone == 31 && lon >= 3 {
        zone = 32;
    } else if band == 9 && 0 <= lon && lon < 42 {
        zone = 2 * ((lon + 183) / 12) + 1;
    }
    zone
}

/// Central meridian of a UTM zone, in degrees.
pub fn central_meridian(zone: i32) -> (r: i32)
    requires
        MINUTMZONE <= zone <= MAXUTMZONE,
    ensures
        r == 6 * zone - 183,
{
    6 * zone - 183
}

} // verus!

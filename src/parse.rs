//! Reading MGRS references.
use vstd::prelude::*;

use crate::grid::{is_digit, run_position, ups_band_index, ups_col_index, ups_row_index, ups_run_position, utm_band_index, utm_col_index, utm_row_index, MAXUTM_S_ROW, MAX_PRECISION, MINUPS_N_IND, MINUPS_S_IND, MINUTMCOL, TILE_NM, UPSEASTING, UTM_EVEN_ROW_SHIFT, UTM_ROW_PERIOD};
use crate::mgrs::{utm_row, utm_row_of, Mgrs};
use crate::text::{chars_of, push_bytes, push_str};
use vstd::string::is_ascii;
use crate::utm::UtmUps;
use crate::Error;

verus! {

// ---------------------------------------------------------------------------
// The grammar.
// ---------------------------------------------------------------------------

/// ASCII upper case of one byte.
pub open spec fn upper(c: u8) -> u8 {
    if 97 <= c <= 122 {
        (c - 32) as u8
    } else {
        c
    }
}

pub open spec fn upper_bytes(b: Seq<u8>) -> Seq<u8> {
    b.map_values(|c: u8| upper(c))
}

/// The bytes of a string of ASCII characters.
pub open spec fn ascii_bytes(s: Seq<char>) -> Seq<u8> {
    Seq::new(s.len(), |i: int| s[i] as u8)
}

pub open spec fn pow10(n: nat) -> int
    decreases n,
{
    if n == 0 {
        1
    } else {
        10 * pow10((n - 1) as nat)
    }
}

/// Value of a string of decimal digits.
pub open spec fn digits_value(s: Seq<u8>) -> int
    decreases s.len(),
{
    if s.len() == 0 {
        0
    } else {
        10 * digits_value(s.drop_last()) + (s.last() - 48)
    }
}

pub open spec fn all_digits(s: Seq<u8>) -> bool {
    forall|i: int| 0 <= i < s.len() ==> is_digit(#[trigger] s[i])
}

/// Whether the reference starts with `INV`, which marks an invalid position.
pub open spec fn starts_inv(u: Seq<u8>) -> bool {
    u.len() >= 3 && u[0] == 73 && u[1] == 78 && u[2] == 86
}

/// Number of leading digits, counted up to three.
pub open spec fn zone_len(u: Seq<u8>) -> int {
    if u.len() > 0 && is_digit(u[0]) {
        if u.len() > 1 && is_digit(u[1]) {
            if u.len() > 2 && is_digit(u[2]) {
                3
            } else {
                2
            }
        } else {
            1
        }
    } else {
        0
    }
}

/// The zone written by the leading digits (0, for UPS, when there are none).
pub open spec fn zone_number(u: Seq<u8>) -> int {
    let p = zone_len(u);
    if p == 0 {
        0
    } else if p == 1 {
        u[0] - 48
    } else {
        10 * (u[0] - 48) + (u[1] - 48)
    }
}

/// Index of a band letter: 0 to 19 for UTM (`C` to `X`), 0 to 3 for UPS
/// (`A`, `B`, `Y`, `Z`); -1 when there is none.
pub open spec fn band_index(utmp: bool, c: u8) -> int {
    if utmp {
        utm_band_index(c)
    } else {
        ups_band_index(c)
    }
}

pub open spec fn col_index(utmp: bool, zone: int, band: int, c: u8) -> int {
    if utmp {
        utm_col_index((zone - 1) % 3, c)
    } else {
        ups_col_index(band, c)
    }
}

pub open spec fn row_letter_index(utmp: bool, northp: bool, c: u8) -> int {
    if utmp {
        utm_row_index(c)
    } else {
        ups_row_index(northp, c)
    }
}

/// Tile indices (easting, northing) of the 100 km block with column index
/// `col` and row letter index `rowl`, or `None` when a UTM block does not lie
/// in the band.
pub open spec fn block_tile(utmp: bool, zone: int, band: int, northp: bool, col: int, rowl: int) -> Option<(int, int)> {
    if utmp {
        let rl = if (zone - 1) % 2 == 1 {
            (rowl + UTM_ROW_PERIOD - UTM_EVEN_ROW_SHIFT) % (UTM_ROW_PERIOD as int)
        } else {
            rowl
        };
        let r = utm_row_of(band - 10, col, rl);
        if r == MAXUTM_S_ROW {
            None
        } else {
            Some((col + MINUTMCOL, if northp { r } else { r + MAXUTM_S_ROW }))
        }
    } else {
        let eastp = band % 2 == 1;
        Some(
            (
                col + if eastp {
                    UPSEASTING as int
                } else if northp {
                    MINUPS_N_IND as int
                } else {
                    MINUPS_S_IND as int
                },
                rowl + if northp {
                    MINUPS_N_IND as int
                } else {
                    MINUPS_S_IND as int
                },
            ),
        )
    }
}

/// Side in nanometres of the cell of an MGRS reference with `p` digit pairs.
pub open spec fn cell_nm(p: nat) -> int {
    pow10((14 - p) as nat)
}

/// Centre, in nanometres, of cell number `v` of side `cell_nm(p)`.
pub open spec fn cell_centre(v: int, p: nat) -> int {
    v * cell_nm(p) + cell_nm(p) / 2
}

/// The point of a grid zone designator alone: for UTM the band centre on
/// the central meridian (4 instead of 5 tiles east in zone 31, band V),
/// for UPS a point 4 tiles from the pole on the band's side.
pub open spec fn band_centre(utmp: bool, zone: int, band: int, northp: bool) -> (int, int) {
    if utmp {
        (
            (if zone == 31 && band == 17 {
                4int
            } else {
                5
            }) * TILE_NM,
            (80 * (2 * band - 19) + 9) / 18 * TILE_NM + if northp {
                0
            } else {
                MAXUTM_S_ROW * TILE_NM
            },
        )
    } else {
        (
            (if band % 2 == 1 {
                24int
            } else {
                16
            }) * TILE_NM,
            UPSEASTING * TILE_NM,
        )
    }
}

/// The MGRS point that an upper-case reference `u` denotes, or `None` when
/// `u` is no reference. A reference is: up to two zone digits (none, or
/// zone 0, for UPS),
/// a band letter, then either nothing (the grid zone alone, precision -1) or
/// a column letter, a row letter and an even number, at most 22, of digits,
/// split evenly between easting and northing. The point is the centre of
/// the cell that the reference names.
pub open spec fn parse_spec(u: Seq<u8>) -> Option<Mgrs> {
    let p = zone_len(u);
    let zone = zone_number(u);
    let utmp = zone != 0;
    if starts_inv(u) || zone > 60 || p > 2 || u.len() <= p {
        None
    } else {
        let band = band_index(utmp, u[p]);
        let northp = band >= if utmp {
            10int
        } else {
            2
        };
        if band < 0 {
            None
        } else if u.len() == p + 1 {
            let (x, y) = band_centre(utmp, zone, band, northp);
            Some(
                Mgrs {
                    utm: UtmUps { zone: zone as i32, northp, easting: x as i64, northing: y as i64 },
                    precision: -1i32,
                },
            )
        } else if u.len() < p + 3 {
            None
        } else {
            let col = col_index(utmp, zone, band, u[p + 1]);
            let rowl = row_letter_index(utmp, northp, u[p + 2]);
            let digits = u.subrange(p + 3, u.len() as int);
            let prec = digits.len() / 2;
            if col < 0 || rowl < 0 {
                None
            } else {
                match block_tile(utmp, zone, band, northp, col, rowl) {
                    None => None,
                    Some((xt, yt)) => {
                        if !all_digits(digits) || digits.len() % 2 == 1 || prec > MAX_PRECISION {
                            None
                        } else {
                            let dx = digits_value(digits.subrange(0, prec as int));
                            let dy = digits_value(digits.subrange(prec as int, 2 * prec as int));
                            Some(
                                Mgrs {
                                    utm: UtmUps {
                                        zone: zone as i32,
                                        northp,
                                        easting: cell_centre(xt * pow10(prec) + dx, prec) as i64,
                                        northing: cell_centre(yt * pow10(prec) + dy, prec) as i64,
                                    },
                                    precision: prec as i32,
                                },
                            )
                        }
                    },
                }
            }
        }
    }
}

// ---------------------------------------------------------------------------
// Arithmetic facts.
// ---------------------------------------------------------------------------

pub proof fn lemma_pow10_positive(n: nat)
    ensures
        pow10(n) >= 1,
    decreases n,
{
    if n > 0 {
        lemma_pow10_positive((n - 1) as nat);
    }
}

pub proof fn lemma_pow10_add(a: nat, b: nat)
    ensures
        pow10(a) * pow10(b) == pow10(a + b),
    decreases a,
{
    if a > 0 {
        lemma_pow10_add((a - 1) as nat, b);
        assert(pow10(a) * pow10(b) == 10 * (pow10((a - 1) as nat) * pow10(b))) by (nonlinear_arith)
            requires
                pow10(a) == 10 * pow10((a - 1) as nat),
        ;
    }
}

pub proof fn lemma_pow10_14()
    ensures
        pow10(14) == 100_000_000_000_000,
{
    reveal_with_fuel(pow10, 15);
}

pub proof fn lemma_pow10_le(a: nat, b: nat)
    requires
        a <= b,
    ensures
        1 <= pow10(a) <= pow10(b),
{
    lemma_pow10_add(a, (b - a) as nat);
    lemma_pow10_positive(a);
    lemma_pow10_positive((b - a) as nat);
    assert(pow10(a) <= pow10(a) * pow10((b - a) as nat)) by (nonlinear_arith)
        requires
            pow10(a) >= 1,
            pow10((b - a) as nat) >= 1,
    ;
}

pub proof fn lemma_digits_value_bound(s: Seq<u8>)
    requires
        all_digits(s),
    ensures
        0 <= digits_value(s) < pow10(s.len()),
    decreases s.len(),
{
    if s.len() > 0 {
        let t = s.drop_last();
        assert(all_digits(t)) by {
            assert forall|i: int| 0 <= i < t.len() implies is_digit(#[trigger] t[i]) by {
                assert(t[i] == s[i]);
            }
        }
        lemma_digits_value_bound(t);
        assert(is_digit(s[s.len() - 1]));
    }
}

// ---------------------------------------------------------------------------
// The parser.
// ---------------------------------------------------------------------------

/// Start of the message for a reference that starts with `INV`.
pub const INV_MESSAGE: &'static str = "Starts with 'INV': ";
pub const NON_ASCII_MESSAGE: &'static str = "String contains non-ASCII characters";
pub const ZONE_DIGITS_MESSAGE: &'static str = "More than 2 digits at start of MGRS ";
pub const ZONE_MESSAGE: &'static str = "Zone not in [0,60]: ";
pub const SHORT_MESSAGE: &'static str = "Too short: ";
pub const UTM_BAND_MESSAGE: &'static str = "Band letter not in UTM set CDEFGHJKLMNPQRSTUVWX: ";
pub const UPS_BAND_MESSAGE: &'static str = "Band letter not in UPS set ABYZ: ";
pub const MISSING_ROW_MESSAGE: &'static str = "Missing row letter in ";
pub const UTM_COL_MESSAGE_0: &'static str = "Column letter not in zone set ABCDEFGH: ";
pub const UTM_COL_MESSAGE_1: &'static str = "Column letter not in zone set JKLMNPQR: ";
pub const UTM_COL_MESSAGE_2: &'static str = "Column letter not in zone set STUVWXYZ: ";
pub const UPS_COL_MESSAGE_A: &'static str = "Column letter not in UPS band A set JKLPQRSTUXYZ: ";
pub const UPS_COL_MESSAGE_B: &'static str = "Column letter not in UPS band B set ABCFGHJKLPQR: ";
pub const UPS_COL_MESSAGE_Y: &'static str = "Column letter not in UPS band Y set RSTUXYZ: ";
pub const UPS_COL_MESSAGE_Z: &'static str = "Column letter not in UPS band Z set ABCFGHJ: ";
pub const UTM_ROW_MESSAGE: &'static str = "Row letter not in UTM set ABCDEFGHJKLMNPQRSTUV: ";
pub const UPS_N_ROW_MESSAGE: &'static str = "Row letter not in UPS N set ABCDEFGHJKLMNP: ";
pub const UPS_S_ROW_MESSAGE: &'static str = "Row letter not in UPS S set ABCDEFGHJKLMNPQRSTUVWXYZ: ";
pub const BLOCK_MESSAGE: &'static str = "Block not in zone/band: ";
pub const NON_DIGIT_MESSAGE: &'static str = "Encountered a non-digit in ";
pub const ODD_DIGITS_MESSAGE: &'static str = "Not an even number of digits in ";
pub const MANY_DIGITS_MESSAGE: &'static str = "More than 22 digits in ";

/// Start of the message for a band letter outside the alphabet.
pub open spec fn band_message(utmp: bool) -> Seq<char> {
    if utmp {
        UTM_BAND_MESSAGE@
    } else {
        UPS_BAND_MESSAGE@
    }
}

/// Start of the message for a column letter outside the alphabet of the
/// zone (by `(zone - 1) % 3`) or of the UPS band.
pub open spec fn col_message(utmp: bool, zone: int, band: int) -> Seq<char> {
    if utmp {
        let set = (zone - 1) % 3;
        if set == 0 {
            UTM_COL_MESSAGE_0@
        } else if set == 1 {
            UTM_COL_MESSAGE_1@
        } else {
            UTM_COL_MESSAGE_2@
        }
    } else if band == 0 {
        UPS_COL_MESSAGE_A@
    } else if band == 1 {
        UPS_COL_MESSAGE_B@
    } else if band == 2 {
        UPS_COL_MESSAGE_Y@
    } else {
        UPS_COL_MESSAGE_Z@
    }
}

/// Start of the message for a row letter outside the alphabet.
pub open spec fn row_message(utmp: bool, northp: bool) -> Seq<char> {
    if utmp {
        UTM_ROW_MESSAGE@
    } else if northp {
        UPS_N_ROW_MESSAGE@
    } else {
        UPS_S_ROW_MESSAGE@
    }
}

/// The message with which the parser refuses `u`, for a `u` that
/// `parse_spec` refuses: the first fault, in the order the reference is
/// read, with the text it concerns and, for a letter, its alphabet.
pub open spec fn parse_message(u: Seq<u8>) -> Seq<char> {
    let p = zone_len(u);
    let zone = zone_number(u);
    let utmp = zone != 0;
    if starts_inv(u) {
        INV_MESSAGE@ + chars_of(u)
    } else if p > 2 {
        ZONE_DIGITS_MESSAGE@ + chars_of(u)
    } else if zone > 60 {
        ZONE_MESSAGE@ + chars_of(u.subrange(0, p))
    } else if u.len() <= p {
        SHORT_MESSAGE@ + chars_of(u)
    } else {
        let band = band_index(utmp, u[p]);
        let northp = band >= if utmp {
            10int
        } else {
            2
        };
        if band < 0 {
            band_message(utmp) + chars_of(u.subrange(p, p + 1))
        } else if u.len() < p + 3 {
            MISSING_ROW_MESSAGE@ + chars_of(u)
        } else {
            let col = col_index(utmp, zone, band, u[p + 1]);
            let rowl = row_letter_index(utmp, northp, u[p + 2]);
            let digits = u.subrange(p + 3, u.len() as int);
            if col < 0 {
                col_message(utmp, zone, band) + chars_of(u.subrange(p + 1, p + 2))
            } else if rowl < 0 {
                row_message(utmp, northp) + chars_of(u.subrange(p + 2, p + 3))
            } else if block_tile(utmp, zone, band, northp, col, rowl) is None {
                BLOCK_MESSAGE@ + chars_of(u.subrange(0, p + 3))
            } else if !all_digits(digits) {
                NON_DIGIT_MESSAGE@ + chars_of(digits)
            } else if digits.len() % 2 == 1 {
                ODD_DIGITS_MESSAGE@ + chars_of(digits)
            } else {
                MANY_DIGITS_MESSAGE@ + chars_of(digits)
            }
        }
    }
}

fn col_message_text(utmp: bool, zone: i32, band: i32) -> (r: &'static str)
    requires
        utmp ==> 1 <= zone <= 60,
    ensures
        r@ == col_message(utmp, zone as int, band as int),
{
    if utmp {
        let set = (zone - 1) % 3;
        if set == 0 {
            UTM_COL_MESSAGE_0
        } else if set == 1 {
            UTM_COL_MESSAGE_1
        } else {
            UTM_COL_MESSAGE_2
        }
    } else if band == 0 {
        UPS_COL_MESSAGE_A
    } else if band == 1 {
        UPS_COL_MESSAGE_B
    } else if band == 2 {
        UPS_COL_MESSAGE_Y
    } else {
        UPS_COL_MESSAGE_Z
    }
}

fn mgrs_error(text: &str, u: &Vec<u8>, from: usize, to: usize) -> (r: Error)
    requires
        from <= to <= u@.len(),
    ensures
        (r matches Error::InvalidMgrs(m) && m@ == text@ + chars_of(u@.subrange(from as int, to as int))),
{
    let mut s = String::new();
    push_str(&mut s, text);
    push_bytes(&mut s, u.as_slice(), from, to);
    Error::InvalidMgrs(s)
}

fn upper_vec(b: &[u8]) -> (r: Vec<u8>)
    ensures
        r@ == upper_bytes(b@),
{
    let mut r: Vec<u8> = Vec::new();
    let mut i: usize = 0;
    while i < b.len()
        invariant
            i <= b@.len(),
            r@ =~= upper_bytes(b@.subrange(0, i as int)),
        decreases b@.len() - i,
    {
        let c = b[i];
        let up = if 97 <= c && c <= 122 {
            c - 32
        } else {
            c
        };
        r.push(up);
        i += 1;
        assert(upper_bytes(b@.subrange(0, i as int)) =~= upper_bytes(
            b@.subrange(0, (i - 1) as int),
        ).push(upper(c)));
    }
    assert(b@.subrange(0, b@.len() as int) =~= b@);
    r
}

fn is_digit_byte(c: u8) -> (r: bool)
    ensures
        r == is_digit(c),
{
    48 <= c && c <= 57
}

fn band_position(utmp: bool, c: u8) -> (r: i32)
    ensures
        r == band_index(utmp, c),
{
    if utmp {
        run_position(c, 2, 20)
    } else if c == 65 {
        0
    } else if c == 66 {
        1
    } else if c == 89 {
        2
    } else if c == 90 {
        3
    } else {
        -1
    }
}

fn col_position(utmp: bool, zone: i32, band: i32, c: u8) -> (r: i32)
    requires
        utmp ==> 1 <= zone <= 60,
        !utmp ==> 0 <= band < 4,
    ensures
        r == col_index(utmp, zone as int, band as int, c),
        r < 12,
{
    if utmp {
        run_position(c, 8 * ((zone - 1) % 3), 8)
    } else {
        let start: i32 = if band == 0 {
            6
        } else if band == 1 {
            0
        } else if band == 2 {
            11
        } else {
            0
        };
        let len: i32 = if band == 0 || band == 1 {
            12
        } else {
            7
        };
        ups_run_position(c, start, len)
    }
}

fn row_position(utmp: bool, northp: bool, c: u8) -> (r: i32)
    ensures
        r == row_letter_index(utmp, northp, c),
        r < 24,
{
    if utmp {
        run_position(c, 0, 20)
    } else {
        run_position(
            c,
            0,
            if northp {
                14
            } else {
                24
            },
        )
    }
}

fn tile_of_block(utmp: bool, zone: i32, band: i32, northp: bool, col: i32, rowl: i32) -> (r: Option<
    (i64, i64),
>)
    requires
        utmp ==> 1 <= zone <= 60 && 0 <= band < 20 && 0 <= col < 8 && 0 <= rowl < 20,
        !utmp ==> 0 <= band < 4 && 0 <= col < 12 && 0 <= rowl < 24,
        northp == (band >= if utmp {
            10int
        } else {
            2
        }),
    ensures
        match block_tile(utmp, zone as int, band as int, northp, col as int, rowl as int) {
            None => r is None,
            Some((xt, yt)) => r == Some((xt as i64, yt as i64)) && 0 <= xt < 40 && 0 <= yt < 200,
        },
{
    if utmp {
        let rl = if (zone - 1) % 2 == 1 {
            (rowl + UTM_ROW_PERIOD - UTM_EVEN_ROW_SHIFT) % UTM_ROW_PERIOD
        } else {
            rowl
        };
        let r = utm_row(band - 10, col, rl);
        if r == MAXUTM_S_ROW {
            return None;
        }
        proof {
            lemma_utm_row_range(band - 10, col as int, rl as int);
        }
        let yt = if northp {
            r
        } else {
            r + MAXUTM_S_ROW
        };
        Some(((col + MINUTMCOL) as i64, yt as i64))
    } else {
        let eastp = band % 2 == 1;
        let xoff = if eastp {
            UPSEASTING
        } else if northp {
            MINUPS_N_IND
        } else {
            MINUPS_S_IND
        };
        let yoff = if northp {
            MINUPS_N_IND
        } else {
            MINUPS_S_IND
        };
        Some(((col + xoff) as i64, (rowl + yoff) as i64))
    }
}

/// The rows that `utm_row_of` resolves to lie on the band's side of the
/// equator.
pub proof fn lemma_utm_row_range(band: int, col: int, row: int)
    requires
        -10 <= band <= 9,
        0 <= col < 8,
        0 <= row < 20,
        utm_row_of(band, col, row) != MAXUTM_S_ROW,
    ensures
        band >= 0 ==> 0 <= utm_row_of(band, col, row) <= 94,
        band < 0 ==> -90 <= utm_row_of(band, col, row) <= -1,
{
}

fn pow10_exec(n: u32) -> (r: i64)
    requires
        n <= 14,
    ensures
        r == pow10(n as nat),
        r >= 1,
{
    let mut r: i64 = 1;
    let mut i: u32 = 0;
    while i < n
        invariant
            i <= n <= 14,
            r == pow10(i as nat),
            1 <= r <= 100_000_000_000_000,
        decreases n - i,
    {
        proof {
            lemma_pow10_le((i + 1) as nat, 14);
            lemma_pow10_14();
        }
        r = r * 10;
        i += 1;
    }
    r
}

/// Floor of `a / 18`.
fn floor_div_18(a: i64) -> (r: i64)
    requires
        -10_000 <= a <= 10_000,
    ensures
        r == a / 18,
{
    if a >= 0 {
        a / 18
    } else {
        -((-a + 17) / 18)
    }
}

fn band_centre_exec(utmp: bool, zone: i32, band: i32, northp: bool) -> (r: (i64, i64))
    requires
        utmp ==> 0 <= band < 20,
        !utmp ==> 0 <= band < 4,
    ensures
        r.0 == band_centre(utmp, zone as int, band as int, northp).0,
        r.1 == band_centre(utmp, zone as int, band as int, northp).1,
{
    if utmp {
        let cols: i64 = if zone == 31 && band == 17 {
            4
        } else {
            5
        };
        let rows = floor_div_18(80 * (2 * band as i64 - 19) + 9);
        let shift: i64 = if northp {
            0
        } else {
            MAXUTM_S_ROW as i64 * TILE_NM
        };
        (cols * TILE_NM, rows * TILE_NM + shift)
    } else {
        let cols: i64 = if band % 2 == 1 {
            24
        } else {
            16
        };
        (cols * TILE_NM, UPSEASTING as i64 * TILE_NM)
    }
}

proof fn lemma_digits_step(u: Seq<u8>, from: int, k: int)
    requires
        0 <= from,
        0 <= k,
        from + k < u.len(),
    ensures
        digits_value(u.subrange(from, from + k + 1)) == 10 * digits_value(u.subrange(from, from + k))
            + (u[from + k] - 48),
{
    let t = u.subrange(from, from + k + 1);
    assert(t.drop_last() =~= u.subrange(from, from + k));
    assert(t.last() == u[from + k]);
}

proof fn lemma_digits_sub(u: Seq<u8>, from: int, to: int)
    requires
        0 <= from <= to <= u.len(),
        forall|i: int| from <= i < to ==> is_digit(#[trigger] u[i]),
    ensures
        0 <= digits_value(u.subrange(from, to)) < pow10((to - from) as nat),
{
    let t = u.subrange(from, to);
    assert forall|i: int| 0 <= i < t.len() implies is_digit(#[trigger] t[i]) by {
        assert(t[i] == u[from + i]);
    }
    lemma_digits_value_bound(t);
}

/// Whether every byte of `u` from `from` on is a digit.
fn digits_from(u: &Vec<u8>, from: usize) -> (r: bool)
    requires
        from <= u@.len(),
    ensures
        r == (forall|j: int| from <= j < u@.len() ==> is_digit(#[trigger] u@[j])),
{
    let mut i = from;
    while i < u.len()
        invariant
            from <= i <= u@.len(),
            forall|j: int| from <= j < i ==> is_digit(#[trigger] u@[j]),
        decreases u@.len() - i,
    {
        if !is_digit_byte(u[i]) {
            return false;
        }
        i += 1;
    }
    true
}

/// Reads `n` digits of `u` from `from` on, after the cell index `t`.
#[verifier::rlimit(50)]
fn read_cell(u: &Vec<u8>, from: usize, n: usize, t: i64) -> (r: i64)
    requires
        from + n <= u@.len(),
        n <= 11,
        0 <= t < 200,
        forall|j: int| from <= j < from + n ==> is_digit(#[trigger] u@[j]),
    ensures
        r == t * pow10(n as nat) + digits_value(u@.subrange(from as int, (from + n) as int)),
        0 <= r < 200 * pow10(n as nat),
{
    let len = u.len();
    let mut r: i64 = t;
    let mut k: usize = 0;
    proof {
        lemma_pow10_14();
        assert(u@.subrange(from as int, from as int) =~= Seq::<u8>::empty());
        assert(pow10(0) == 1);
    }
    while k < n
        invariant
            k <= n <= 11,
            from + n <= u@.len(),
            len == u@.len(),
            0 <= t < 200,
            forall|j: int| from <= j < from + n ==> is_digit(#[trigger] u@[j]),
            pow10(14) == 100_000_000_000_000,
            r == t * pow10(k as nat) + digits_value(u@.subrange(from as int, (from + k) as int)),
            0 <= r < 200 * pow10(k as nat),
        decreases n - k,
    {
        let ghost p = pow10(k as nat);
        let ghost d = digits_value(u@.subrange(from as int, (from + k) as int));
        proof {
            lemma_pow10_le(k as nat, 14);
            lemma_digits_step(u@, from as int, k as int);
            assert(is_digit(u@[(from + k) as int]));
            lemma_digits_sub(u@, from as int, (from + k + 1) as int);
        }
        let b = u[from + k];
        assert(is_digit(b));
        let c = (b - 48) as i64;
        r = 10 * r + c;
        k += 1;
        proof {
            assert(pow10(k as nat) == 10 * p);
            assert(r == t * pow10(k as nat) + digits_value(u@.subrange(from as int, (from + k) as int)))
                by (nonlinear_arith)
                requires
                    r == 10 * (t * p + d) + c,
                    digits_value(u@.subrange(from as int, (from + k) as int)) == 10 * d + c,
                    pow10(k as nat) == 10 * p,
            ;
            let dd = digits_value(u@.subrange(from as int, (from + k) as int));
            let pp = pow10(k as nat);
            assert(t * pp <= 199 * pp) by (nonlinear_arith)
                requires
                    t <= 199,
                    pp >= 1,
            ;
        }
    }
    r
}

/// Centre of cell `v` of an MGRS reference with `prec` digit pairs.
fn centre_of(v: i64, prec: usize) -> (r: i64)
    requires
        prec <= 11,
        0 <= v < 200 * pow10(prec as nat),
    ensures
        r == cell_centre(v as int, prec as nat),
{
    let cell = pow10_exec((14 - prec) as u32);
    proof {
        lemma_pow10_add(prec as nat, (14 - prec) as nat);
        lemma_pow10_14();
        let p = pow10(prec as nat);
        assert(v * cell < 200 * pow10(14)) by (nonlinear_arith)
            requires
                v < 200 * p,
                cell >= 1,
                p * cell == pow10(14),
        ;
        assert(0 <= v * cell) by (nonlinear_arith)
            requires
                0 <= v,
                cell >= 1,
        ;
    }
    v * cell + cell / 2
}

/// Reads an upper-case MGRS reference. A refused reference gets the
/// message `parse_message`, which names the fault and the text it concerns.
pub fn parse_reference(u: &Vec<u8>) -> (r: Result<Mgrs, Error>)
    ensures
        match parse_spec(u@) {
            Some(m) => r == Ok::<Mgrs, Error>(m),
            None => r matches Err(Error::InvalidMgrs(msg)) && msg@ == parse_message(u@),
        },
{
    let len = u.len();
    if len >= 3 && u[0] == 73 && u[1] == 78 && u[2] == 86 {
        assert(u@.subrange(0, len as int) =~= u@);
        return Err(mgrs_error(INV_MESSAGE, u, 0, len));
    }
    parse_fields(u)
}

/// Reads the zone and band of an upper-case MGRS reference that does not
/// start with `INV`.
#[verifier::rlimit(100)]
fn parse_fields(u: &Vec<u8>) -> (r: Result<Mgrs, Error>)
    requires
        !starts_inv(u@),
    ensures
        match parse_spec(u@) {
            Some(m) => r == Ok::<Mgrs, Error>(m),
            None => r matches Err(Error::InvalidMgrs(msg)) && msg@ == parse_message(u@),
        },
{
    let len = u.len();
    let p: usize = if len > 0 && is_digit_byte(u[0]) {
        if len > 1 && is_digit_byte(u[1]) {
            if len > 2 && is_digit_byte(u[2]) {
                3
            } else {
                2
            }
        } else {
            1
        }
    } else {
        0
    };
    if p > 2 {
        assert(u@.subrange(0, len as int) =~= u@);
        return Err(mgrs_error(ZONE_DIGITS_MESSAGE, u, 0, len));
    }
    let zone: i32 = if p == 0 {
        0
    } else if p == 1 {
        (u[0] - 48) as i32
    } else {
        10 * ((u[0] - 48) as i32) + (u[1] - 48) as i32
    };
    if zone > 60 {
        return Err(mgrs_error(ZONE_MESSAGE, u, 0, p));
    }
    if len <= p {
        assert(u@.subrange(0, len as int) =~= u@);
        return Err(mgrs_error(SHORT_MESSAGE, u, 0, len));
    }
    let utmp = zone != 0;
    let band = band_position(utmp, u[p]);
    if band < 0 {
        let text = if utmp {
            UTM_BAND_MESSAGE
        } else {
            UPS_BAND_MESSAGE
        };
        return Err(mgrs_error(text, u, p, p + 1));
    }
    let northp = band >= if utmp {
        10
    } else {
        2
    };
    if len == p + 1 {
        let (x, y) = band_centre_exec(utmp, zone, band, northp);
        return Ok(
            Mgrs { utm: UtmUps { zone, northp, easting: x, northing: y }, precision: -1 },
        );
    }
    if len < p + 3 {
        assert(u@.subrange(0, len as int) =~= u@);
        return Err(mgrs_error(MISSING_ROW_MESSAGE, u, 0, len));
    }
    parse_block(u, p, zone, band, northp)
}

/// Reads the column and row letters and the digits of an upper-case MGRS
/// reference whose zone and band have been read.
#[verifier::rlimit(100)]
fn parse_block(u: &Vec<u8>, p: usize, zone: i32, band: i32, northp: bool) -> (r: Result<
    Mgrs,
    Error,
>)
    requires
        !starts_inv(u@),
        p == zone_len(u@),
        p <= 2,
        zone == zone_number(u@),
        0 <= zone <= 60,
        u@.len() >= p + 3,
        band == band_index(zone != 0, u@[p as int]),
        band >= 0,
        northp == (band >= if zone != 0 {
            10int
        } else {
            2
        }),
    ensures
        match parse_spec(u@) {
            Some(m) => r == Ok::<Mgrs, Error>(m),
            None => r matches Err(Error::InvalidMgrs(msg)) && msg@ == parse_message(u@),
        },
{
    let len = u.len();
    let utmp = zone != 0;
    let col = col_position(utmp, zone, band, u[p + 1]);
    if col < 0 {
        return Err(mgrs_error(col_message_text(utmp, zone, band), u, p + 1, p + 2));
    }
    let rowl = row_position(utmp, northp, u[p + 2]);
    if rowl < 0 {
        let text = if utmp {
            UTM_ROW_MESSAGE
        } else if northp {
            UPS_N_ROW_MESSAGE
        } else {
            UPS_S_ROW_MESSAGE
        };
        return Err(mgrs_error(text, u, p + 2, p + 3));
    }
    let (xt, yt) = match tile_of_block(utmp, zone, band, northp, col, rowl) {
        None => {
            return Err(mgrs_error(BLOCK_MESSAGE, u, 0, p + 3));
        },
        Some(t) => t,
    };
    let q = p + 3;
    if !digits_from(u, q) {
        proof {
            let j = choose|j: int| q <= j < len && !is_digit(u@[j]);
            assert(!is_digit(u@.subrange(q as int, len as int)[j - q]));
        }
        return Err(mgrs_error(NON_DIGIT_MESSAGE, u, q, len));
    }
    let ghost digits = u@.subrange(q as int, len as int);
    assert(all_digits(digits)) by {
        assert forall|k: int| 0 <= k < digits.len() implies is_digit(#[trigger] digits[k]) by {
            assert(digits[k] == u@[q + k]);
        }
    }
    if (len - q) % 2 == 1 {
        return Err(mgrs_error(ODD_DIGITS_MESSAGE, u, q, len));
    }
    let prec = (len - q) / 2;
    if prec > 11 {
        return Err(mgrs_error(MANY_DIGITS_MESSAGE, u, q, len));
    }
    assert(digits.subrange(0, prec as int) =~= u@.subrange(q as int, (q + prec) as int));
    assert(digits.subrange(prec as int, 2 * prec as int) =~= u@.subrange(
        (q + prec) as int,
        (q + prec + prec) as int,
    ));
    let x = read_cell(u, q, prec, xt);
    let y = read_cell(u, q + prec, prec, yt);
    let easting = centre_of(x, prec);
    let northing = centre_of(y, prec);
    Ok(Mgrs { utm: UtmUps { zone, northp, easting, northing }, precision: prec as i32 })
}

impl Mgrs {
    /// Reads an MGRS reference such as `18TWL856641113154` or
    /// `YXL6143481146`, in either case, with no spaces. The point is the
    /// centre of the cell that the reference names; a grid zone designator
    /// alone gives precision -1. A refused reference gets the message
    /// `parse_message` of its upper-case form.
    pub fn parse_str(mgrs_str: &str) -> (r: Result<Mgrs, Error>)
        ensures
            !is_ascii(mgrs_str) ==> (r matches Err(Error::InvalidMgrs(msg)) && msg@
                == NON_ASCII_MESSAGE@),
            is_ascii(mgrs_str) ==> match parse_spec(upper_bytes(ascii_bytes(mgrs_str@))) {
                Some(m) => r == Ok::<Mgrs, Error>(m),
                None => r matches Err(Error::InvalidMgrs(msg)) && msg@ == parse_message(
                    upper_bytes(ascii_bytes(mgrs_str@)),
                ),
            },
    {
        if !mgrs_str.is_ascii() {
            let mut s = String::new();
            push_str(&mut s, NON_ASCII_MESSAGE);
            return Err(Error::InvalidMgrs(s));
        }
        let b = mgrs_str.as_bytes();
        proof {
            broadcast use vstd::string::is_ascii_spec_bytes;

            assert(b@ =~= ascii_bytes(mgrs_str@));
        }
        let u = upper_vec(b);
        parse_reference(&u)
    }
}

} // verus!

//! Writing MGRS references.
use vstd::prelude::*;

use crate::grid::{alpha_at, digit_letter, ups_alpha_at, ups_band_letter, ups_col_letter, ups_row_letter, utm_band_letter, utm_col_letter, utm_row_letter, MAXUTM_S_ROW, MAXZONE, MINUPS_N_IND, MINUPS_S_IND, MINUTMCOL, MINUTM_S_ROW, MINZONE, NM_PER_UM, TILE_NM, TILE_UM, UPS, UPSEASTING, UTM_EVEN_ROW_SHIFT, UTM_ROW_PERIOD};
use crate::mgrs::{utm_row, utm_row_of, Mgrs};
use crate::parse::{lemma_pow10_le, pow10};
use crate::text::{chars_of, push_char, push_km, push_str};
use crate::utm::{window_message, window_text, max_easting, max_easting_ind, max_northing, max_northing_ind, min_easting, min_easting_ind, min_northing, min_northing_ind, valid_zone};
use crate::Error;

verus! {

/// The MGRS window of a position: `None` when easting or northing lie
/// outside `[min, max]` tiles of the zone kind and hemisphere. A coordinate
/// on the excluded upper end is moved down by one nanometre. UTM northings
/// are then folded to the hemisphere they lie in; one on the equator keeps
/// its southern hemisphere, one nanometre south of it.
pub open spec fn mgrs_window(utmp: bool, northp: bool, x: int, y: int) -> Option<(bool, int, int)> {
    let xl = min_easting_ind(utmp, northp) * TILE_NM;
    let xh = max_easting_ind(utmp, northp) * TILE_NM;
    let yl = min_northing_ind(utmp, northp) * TILE_NM;
    let yh = max_northing_ind(utmp, northp) * TILE_NM;
    if !(xl <= x <= xh) || !(yl <= y <= yh) {
        None
    } else {
        let x1 = if x == xh {
            x - 1
        } else {
            x
        };
        let y1 = if y == yh {
            y - 1
        } else {
            y
        };
        if utmp && northp && y < MINUTM_S_ROW * TILE_NM {
            Some((false, x1, y1 + MAXUTM_S_ROW * TILE_NM))
        } else if utmp && !northp && y >= MAXUTM_S_ROW * TILE_NM {
            if y == MAXUTM_S_ROW * TILE_NM {
                Some((false, x1, y1 - 1))
            } else {
                Some((true, x1, y - MAXUTM_S_ROW * TILE_NM))
            }
        } else {
            Some((northp, x1, y1))
        }
    }
}

/// The `n` last decimal digits of `v`.
pub open spec fn digit_string(v: int, n: nat) -> Seq<u8>
    decreases n,
{
    if n == 0 {
        Seq::empty()
    } else {
        digit_string(v / 10, (n - 1) as nat).push(digit_letter(v % 10))
    }
}

/// Zone, band, column and row letters of a UTM block.
pub open spec fn utm_head(zone: int, band: int, col: int, yh: int) -> Seq<u8> {
    seq![
        digit_letter(zone / 10),
        digit_letter(zone % 10),
        utm_band_letter(band + 10),
        utm_col_letter((zone - 1) % 3, col),
        utm_row_letter(
            (yh + if (zone - 1) % 2 == 1 {
                UTM_EVEN_ROW_SHIFT as int
            } else {
                0
            }) % (UTM_ROW_PERIOD as int),
        ),
    ]
}

/// UPS band index of a block: south/north, west/east.
pub open spec fn ups_band_of(northp: bool, xh: int) -> int {
    (if northp {
        2int
    } else {
        0
    }) + if xh >= UPSEASTING {
        1int
    } else {
        0
    }
}

/// Band, column and row letters of a UPS block.
pub open spec fn ups_head(northp: bool, xh: int, yh: int) -> Seq<u8> {
    let b = ups_band_of(northp, xh);
    let off = if northp {
        MINUPS_N_IND as int
    } else {
        MINUPS_S_IND as int
    };
    seq![
        ups_band_letter(b),
        ups_col_letter(
            b,
            xh - if xh >= UPSEASTING {
                UPSEASTING as int
            } else {
                off
            },
        ),
        ups_row_letter(yh - off),
    ]
}

/// The MGRS reference of `m`, written with latitude band `band` (-10 to 9;
/// not used for UPS): `None` when the position lies outside the MGRS window
/// or, for UTM, when the band does not hold the position's 100 km block.
/// The reference has `2 + 3 + 2 precision` characters for UTM and
/// `3 + 2 precision` for UPS; precision -1 gives the grid zone designator
/// alone. Digits are truncated, not rounded.
pub open spec fn mgrs_text(m: Mgrs, band: int) -> Option<Seq<u8>> {
    let zone = m.utm.zone as int;
    let utmp = zone != UPS;
    let p = m.precision as int;
    match mgrs_window(utmp, m.utm.northp, m.utm.easting as int, m.utm.northing as int) {
        None => None,
        Some((np, x, y)) => {
            let ix = x / (NM_PER_UM as int);
            let iy = y / (NM_PER_UM as int);
            let xh = ix / (TILE_UM as int);
            let yh = iy / (TILE_UM as int);
            let consistent = !utmp || (-10 <= band <= 9 && utm_row_of(
                band,
                xh - MINUTMCOL,
                yh % (UTM_ROW_PERIOD as int),
            ) == yh - if np {
                0
            } else {
                MAXUTM_S_ROW as int
            });
            let head = if utmp {
                utm_head(zone, band, xh - MINUTMCOL, yh)
            } else {
                ups_head(np, xh, yh)
            };
            if !consistent {
                None
            } else if p < 0 {
                Some(head.subrange(0, head.len() - 2))
            } else {
                let d = pow10((11 - p) as nat);
                Some(
                    head + digit_string((ix - TILE_UM * xh) / d, p as nat) + digit_string(
                        (iy - TILE_UM * yh) / d,
                        p as nat,
                    ),
                )
            }
        },
    }
}

// ---------------------------------------------------------------------------
// Checks.
// ---------------------------------------------------------------------------

/// The message of `check_coords` for a point outside the MGRS window: it
/// names the easting when that is outside, else the northing.
pub open spec fn mgrs_window_error(utmp: bool, northp: bool, x: int, y: int) -> Seq<char> {
    let xl = min_easting_ind(utmp, northp) * TILE_NM;
    let xh = max_easting_ind(utmp, northp) * TILE_NM;
    if !(xl <= x <= xh) {
        window_text("Easting"@, x, true, utmp, northp, xl, xh)
    } else {
        window_text(
            "Northing"@,
            y,
            true,
            utmp,
            northp,
            min_northing_ind(utmp, northp) * TILE_NM,
            max_northing_ind(utmp, northp) * TILE_NM,
        )
    }
}

/// Checks a position against its MGRS window and folds a UTM northing to
/// the hemisphere it lies in; see `mgrs_window`.
pub fn check_coords(utmp: bool, northp: bool, x: i64, y: i64) -> (r: Result<(bool, i64, i64), Error>)
    ensures
        match mgrs_window(utmp, northp, x as int, y as int) {
            None => r matches Err(Error::InvalidMgrs(msg)) && msg@ == mgrs_window_error(
                utmp,
                northp,
                x as int,
                y as int,
            ),
            Some((np, x1, y1)) => r == Ok::<(bool, i64, i64), Error>((np, x1 as i64, y1 as i64)),
        },
{
    let xl = min_easting(utmp, northp) * TILE_NM;
    let xh = max_easting(utmp, northp) * TILE_NM;
    let yl = min_northing(utmp, northp) * TILE_NM;
    let yh = max_northing(utmp, northp) * TILE_NM;
    if !(xl <= x && x <= xh) {
        return Err(Error::InvalidMgrs(window_message("Easting", x, true, utmp, northp, xl, xh)));
    }
    if !(yl <= y && y <= yh) {
        return Err(Error::InvalidMgrs(window_message("Northing", y, true, utmp, northp, yl, yh)));
    }
    let x1 = if x == xh {
        x - 1
    } else {
        x
    };
    let y1 = if y == yh {
        y - 1
    } else {
        y
    };
    let shift = MAXUTM_S_ROW as i64 * TILE_NM;
    if utmp && northp && y < MINUTM_S_ROW as i64 * TILE_NM {
        Ok((false, x1, y1 + shift))
    } else if utmp && !northp && y >= shift {
        if y == shift {
            Ok((false, x1, y1 - 1))
        } else {
            Ok((true, x1, y - shift))
        }
    } else {
        Ok((northp, x1, y1))
    }
}

// ---------------------------------------------------------------------------
// Writing.
// ---------------------------------------------------------------------------

/// Appends the `n` last decimal digits of `v`.
fn push_digits(out: &mut Vec<u8>, v: i64, n: usize)
    requires
        v >= 0,
    ensures
        final(out)@ == old(out)@ + digit_string(v as int, n as nat),
    decreases n,
{
    if n > 0 {
        push_digits(out, v / 10, n - 1);
        out.push((48 + v % 10) as u8);
        assert(final(out)@ =~= old(out)@ + digit_string(v as int, n as nat));
    }
}

fn pow10_small(n: u32) -> (r: i64)
    requires
        n <= 12,
    ensures
        r == pow10(n as nat),
        r >= 1,
{
    let mut r: i64 = 1;
    let mut i: u32 = 0;
    proof {
        lemma_pow10_le(12, 12);
        reveal_with_fuel(pow10, 13);
    }
    while i < n
        invariant
            i <= n <= 12,
            r == pow10(i as nat),
            pow10(12) == 1_000_000_000_000,
        decreases n - i,
    {
        proof {
            lemma_pow10_le((i + 1) as nat, 12);
        }
        r = r * 10;
        i += 1;
    }
    r
}

fn push_all(s: &mut String, b: &Vec<u8>)
    ensures
        final(s)@ == old(s)@ + chars_of(b@),
{
    let mut i: usize = 0;
    while i < b.len()
        invariant
            i <= b@.len(),
            s@ == old(s)@ + chars_of(b@.subrange(0, i as int)),
        decreases b@.len() - i,
    {
        push_char(s, b[i] as char);
        i += 1;
        assert(chars_of(b@.subrange(0, i as int)) =~= chars_of(b@.subrange(0, (i - 1) as int)).push(
            b@[i - 1] as char,
        ));
    }
    assert(b@.subrange(0, b@.len() as int) =~= b@);
}

impl Mgrs {
    /// Writes the MGRS reference of this point in latitude band `band_idx`
    /// (-10 to 9, from band C to X; not used for UPS points). Fails with
    /// `InvalidZone` or `InvalidPrecision` when those fields are out of
    /// range (precision must be in `[-1, 11]`), and with `InvalidMgrs` when
    /// the position lies outside the MGRS window or the band does not hold
    /// its 100 km block.
    #[verifier::rlimit(50)]
    pub fn format_in_band(&self, band_idx: i32) -> (r: Result<String, Error>)
        ensures
            !valid_zone(self.utm.zone as int) ==> r == Err::<String, Error>(
                Error::InvalidZone(self.utm.zone),
            ),
            valid_zone(self.utm.zone as int) && !(-1 <= self.precision <= 11) ==> r == Err::<
                String,
                Error,
            >(Error::InvalidPrecision(self.precision)),
            valid_zone(self.utm.zone as int) && -1 <= self.precision <= 11 ==> match mgrs_text(
                *self,
                band_idx as int,
            ) {
                None => r matches Err(Error::InvalidMgrs(_)),
                Some(t) => r matches Ok(s) && s@ == chars_of(t),
            },
    {
        let zone = self.utm.zone;
        if !(MINZONE <= zone && zone <= MAXZONE) {
            return Err(Error::InvalidZone(zone));
        }
        let p = self.precision;
        if !(-1 <= p && p <= 11) {
            return Err(Error::InvalidPrecision(p));
        }
        let utmp = zone != UPS;
        let (np, x, y) = match check_coords(utmp, self.utm.northp, self.utm.easting, self.utm.northing) {
            Ok(t) => t,
            Err(e) => {
                return Err(e);
            },
        };
        let ix = x / NM_PER_UM;
        let iy = y / NM_PER_UM;
        let xh = ix / TILE_UM;
        let yh = iy / TILE_UM;
        let mut head: Vec<u8> = Vec::new();
        if utmp {
            if !(-10 <= band_idx && band_idx <= 9) {
                return Err(band_error(band_idx));
            }
            let col = (xh - MINUTMCOL as i64) as i32;
            let row = utm_row(band_idx, col, (yh % UTM_ROW_PERIOD as i64) as i32);
            let off: i64 = if np {
                0
            } else {
                MAXUTM_S_ROW as i64
            };
            if row as i64 != yh - off {
                return Err(band_error(band_idx));
            }
            head.push((48 + zone / 10) as u8);
            head.push((48 + zone % 10) as u8);
            head.push(alpha_at(band_idx + 12));
            head.push(alpha_at(8 * ((zone - 1) % 3) + col));
            let shift: i64 = if (zone - 1) % 2 == 1 {
                UTM_EVEN_ROW_SHIFT as i64
            } else {
                0
            };
            head.push(alpha_at(((yh + shift) % UTM_ROW_PERIOD as i64) as i32));
            assert(head@ =~= utm_head(zone as int, band_idx as int, col as int, yh as int));
        } else {
            let eastp = xh >= UPSEASTING as i64;
            let b: i32 = (if np {
                2
            } else {
                0
            }) + if eastp {
                1
            } else {
                0
            };
            let off: i64 = if np {
                MINUPS_N_IND as i64
            } else {
                MINUPS_S_IND as i64
            };
            head.push(
                if b == 0 {
                    65
                } else if b == 1 {
                    66
                } else if b == 2 {
                    89
                } else {
                    90
                },
            );
            let start: i32 = if b == 0 {
                6
            } else if b == 1 {
                0
            } else if b == 2 {
                11
            } else {
                0
            };
            let ci = (xh - if eastp {
                UPSEASTING as i64
            } else {
                off
            }) as i32;
            head.push(ups_alpha_at(start + ci));
            head.push(alpha_at((yh - off) as i32));
            assert(head@ =~= ups_head(np, xh as int, yh as int));
        }
        let mut out: Vec<u8> = Vec::new();
        if p < 0 {
            let mut i: usize = 0;
            let n = head.len() - 2;
            while i < n
                invariant
                    i <= n,
                    n == head@.len() - 2,
                    out@ =~= head@.subrange(0, i as int),
                decreases n - i,
            {
                out.push(head[i]);
                i += 1;
                assert(out@ =~= head@.subrange(0, i as int));
            }
        } else {
            out = head;
            let d = pow10_small((11 - p) as u32);
            push_digits(&mut out, (ix - TILE_UM * xh) / d, p as usize);
            push_digits(&mut out, (iy - TILE_UM * yh) / d, p as usize);
        }
        let mut s = String::new();
        push_all(&mut s, &out);
        Ok(s)
    }
}

fn band_error(band_idx: i32) -> (r: Error)
    ensures
        r matches Error::InvalidMgrs(_),
{
    let mut s = String::new();
    push_str(&mut s, "Latitude band is inconsistent with the UTM coordinates");
    Error::InvalidMgrs(s)
}

} // verus!

//! MGRS points, UTM row disambiguation and the latitude band estimate.
use vstd::prelude::*;

use crate::format::{check_coords, mgrs_window, mgrs_window_error};
use crate::grid::{latitude_band, to_latitude_band, MAXUTM_S_ROW, MAXZONE, MINZONE, TILE_NM, UPS, UTM_ROW_PERIOD};
use crate::utm::{valid_zone, UtmUps};
use crate::Error;

verus! {

/// An MGRS point: a UTM/UPS position, the centre of its resolution cell,
/// with the number of digit pairs to write. Precision -1 stands for the
/// grid zone designator alone.
#[derive(Clone, Copy, Debug, PartialEq, Eq, Structural)]
pub struct Mgrs {
    pub utm: UtmUps,
    pub precision: i32,
}

// ---------------------------------------------------------------------------
// Row disambiguation.
// ---------------------------------------------------------------------------

/// Rust's division by two, which rounds towards zero.
pub open spec fn half_toward_zero(v: int) -> int {
    if v >= 0 {
        v / 2
    } else {
        -((-v) / 2)
    }
}

/// Smallest 100 km row that surely lies in latitude band `band`:
/// `floor(100 (8 band + 4) / 90 - 4.3 - 0.1 [band >= 0])`, written over
/// the integers (the real value is never a whole number).
pub open spec fn band_min_row(band: int) -> int {
    if band > -10 {
        (8000 * band + 130 - if band >= 0 { 90int } else { 0 }) / 900
    } else {
        -90
    }
}

/// Largest 100 km row that surely lies in latitude band `band`:
/// `floor(100 (8 band + 4) / 90 + 4.4 - 0.1 [band >= 0])`.
pub open spec fn band_max_row(band: int) -> int {
    if band < 9 {
        (8000 * band + 7960 - if band >= 0 { 90int } else { 0 }) / 900
    } else {
        94
    }
}

/// Folds `[-n, -1]` onto `[n - 1, 0]`.
pub open spec fn fold_negative(v: int) -> int {
    if v >= 0 {
        v
    } else {
        -v - 1
    }
}

/// The four 100 km blocks that straddle a band seam (northings 71e5 and
/// 80e5 and their southern mirrors), by folded row, folded band and folded
/// column.
pub open spec fn seam_block(row: int, band: int, col: int) -> bool {
    (row == 70 && band == 8 && col >= 2) || (row == 71 && band == 7 && col <= 2) || (row == 79
        && band == 9 && col >= 1) || (row == 80 && band == 8 && col <= 1)
}

/// The row, counted in 100 km from the equator, that has row letter
/// index `row` (modulo 20) in column `col` of latitude band `band`; or
/// `MAXUTM_S_ROW` (100) when no such block lies in the band.
pub open spec fn utm_row_of(band: int, col: int, row: int) -> int {
    let lo = band_min_row(band);
    let hi = band_max_row(band);
    let base = half_toward_zero(lo + hi) - UTM_ROW_PERIOD / 2;
    let r = (row - base + MAXUTM_S_ROW) % (UTM_ROW_PERIOD as int) + base;
    if lo <= r <= hi || seam_block(
        fold_negative(r),
        fold_negative(band),
        if col < 4 {
            col
        } else {
            7 - col
        },
    ) {
        r
    } else {
        MAXUTM_S_ROW as int
    }
}

/// Floor of `a / 900`.
fn floor_div_900(a: i32) -> (r: i32)
    requires
        -100_000 <= a <= 100_000,
    ensures
        r == a / 900,
{
    if a >= 0 {
        a / 900
    } else {
        -((-a + 899) / 900)
    }
}

/// Resolves a UTM row letter index to the row, counted in 100 km from the
/// equator, of the block of column `col_idx` (0 to 7) that lies in latitude
/// band `band_idx` (-10 to 9). Returns `MAXUTM_S_ROW` (100) when the block
/// lies outside the band.
#[verifier::rlimit(50)]
pub fn utm_row(band_idx: i32, col_idx: i32, row_idx: i32) -> (r: i32)
    requires
        -10 <= band_idx <= 9,
        0 <= col_idx < 8,
        0 <= row_idx < UTM_ROW_PERIOD,
    ensures
        r == utm_row_of(band_idx as int, col_idx as int, row_idx as int),
{
    let northp: i32 = if band_idx >= 0 {
        1
    } else {
        0
    };
    let min_row = if band_idx > -10 {
        floor_div_900(8000 * band_idx + 130 - 90 * northp)
    } else {
        -90
    };
    let max_row = if band_idx < 9 {
        floor_div_900(8000 * band_idx + 7960 - 90 * northp)
    } else {
        94
    };
    assert(-90 <= min_row <= 80 && -81 <= max_row <= 94);
    let sum = min_row + max_row;
    let half = if sum >= 0 {
        sum / 2
    } else {
        -((-sum) / 2)
    };
    let base_row = half - UTM_ROW_PERIOD / 2;
    let row = (row_idx - base_row + MAXUTM_S_ROW) % UTM_ROW_PERIOD + base_row;
    if !(min_row <= row && row <= max_row) {
        let safe_band = if band_idx >= 0 {
            band_idx
        } else {
            -band_idx - 1
        };
        let safe_row = if row >= 0 {
            row
        } else {
            -row - 1
        };
        let safe_col = if col_idx < 4 {
            col_idx
        } else {
            -col_idx + 7
        };
        if !((safe_row == 70 && safe_band == 8 && safe_col >= 2) || (safe_row == 71 && safe_band
            == 7 && safe_col <= 2) || (safe_row == 79 && safe_band == 9 && safe_col >= 1) || (
        safe_row == 80 && safe_band == 8 && safe_col <= 1)) {
            return MAXUTM_S_ROW;
        }
    }
    row
}

// ---------------------------------------------------------------------------
// The latitude band of a northing.
// ---------------------------------------------------------------------------

/// Floor of `a / d` for a positive `d`.
pub open spec fn floor_div(a: int, d: int) -> int {
    a / d
}

/// The latitude band estimated from a UTM point's northing, or `None` when
/// the estimate is not decisive and the latitude of the inverse projection
/// must decide. With `y` the distance from the equator in tiles (100 km),
/// northward positive: within a nanometre of the equator the band follows
/// the hemisphere the MGRS window folds the point to; closer than one tile
/// it is 0 north of the equator and -1 south of it; further away, the
/// poleward estimate `0.901 y + 0.135 sign(y)` decides when it gives the
/// same band as the eastward estimate `0.902 y (1 - 1.85e-6 y^2)`, both
/// taken at millimetre resolution. UPS points have no band (0).
pub open spec fn band_estimate(m: Mgrs) -> Option<int> {
    let y = if m.utm.northp {
        m.utm.northing as int
    } else {
        m.utm.northing - MAXUTM_S_ROW * TILE_NM
    };
    if m.utm.zone == UPS {
        Some(0)
    } else if -1 <= y <= 1 {
        Some(
            if !m.utm.northp && y == 1 {
                0
            } else {
                -1
            },
        )
    } else if -TILE_NM < y < TILE_NM {
        Some(
            if y > 0 {
                0
            } else {
                -1
            },
        )
    } else if !(-100 * TILE_NM <= y <= 100 * TILE_NM) {
        None
    } else {
        let ymm = floor_div(y, 1_000_000);
        let sign = if y > 0 {
            1int
        } else {
            -1
        };
        let poleward = floor_div(901 * ymm + sign * 13_500_000_000, 100_000_000_000);
        let eastward = floor_div(
            902 * ymm * (1_000_000_000_000_000_000_000_000 - 185 * (ymm * ymm)),
            100_000_000_000_000_000_000_000_000_000_000_000,
        );
        if latitude_band(poleward) == latitude_band(eastward) {
            Some(latitude_band(poleward))
        } else {
            None
        }
    }
}

/// Floor of `a / d` for a positive `d`.
pub(crate) fn floor_div_i128(a: i128, d: i128) -> (r: i128)
    requires
        0 < d <= 1_000_000_000_000_000_000_000_000_000_000_000_000,
        -100_000_000_000_000_000_000_000_000_000_000_000_000 <= a
            <= 100_000_000_000_000_000_000_000_000_000_000_000_000,
    ensures
        r == floor_div(a as int, d as int),
{
    if a >= 0 {
        a / d
    } else {
        let q = (-a + d - 1) / d;
        proof {
            let na: int = -(a as int);
            let di: int = d as int;
            assert(q == (na + di - 1) / di);
            vstd::arithmetic::div_mod::lemma_fundamental_div_mod(na + di - 1, di);
            vstd::arithmetic::div_mod::lemma_fundamental_div_mod(a as int, d as int);
            let fq = (a as int) / di;
            let fr = (a as int) % di;
            assert(a == di * fq + fr);
            assert(na + di - 1 == di * (-fq) + (di - 1 - fr)) by (nonlinear_arith)
                requires
                    a == di * fq + fr,
                    na == -(a as int),
            ;
            vstd::arithmetic::div_mod::lemma_fundamental_div_mod_converse(
                na + di - 1,
                di,
                -fq,
                di - 1 - fr,
            );
        }
        -q
    }
}

// ---------------------------------------------------------------------------
// MGRS points.
// ---------------------------------------------------------------------------

impl Mgrs {
    /// Builds an MGRS point from its parts, after checking them: the zone
    /// must be in `[0, 60]`, the precision in `[1, 11]`, and the position in
    /// the MGRS window of the zone kind and hemisphere.
    pub fn create(zone: i32, northp: bool, easting: i64, northing: i64, precision: i32) -> (r:
        Result<Mgrs, Error>)
        ensures
            !valid_zone(zone as int) ==> r == Err::<Mgrs, Error>(Error::InvalidZone(zone)),
            valid_zone(zone as int) && !(1 <= precision <= 11) ==> r == Err::<Mgrs, Error>(
                Error::InvalidPrecision(precision),
            ),
            valid_zone(zone as int) && 1 <= precision <= 11 && mgrs_window(
                zone != UPS,
                northp,
                easting as int,
                northing as int,
            ) is None ==> (r matches Err(Error::InvalidMgrs(msg)) && msg@ == mgrs_window_error(
                zone != UPS,
                northp,
                easting as int,
                northing as int,
            )),
            valid_zone(zone as int) && 1 <= precision <= 11 && mgrs_window(
                zone != UPS,
                northp,
                easting as int,
                northing as int,
            ) is Some ==> r == Ok::<Mgrs, Error>(
                Mgrs { utm: UtmUps { zone, northp, easting, northing }, precision },
            ),
    {
        if !(MINZONE <= zone && zone <= MAXZONE) {
            return Err(Error::InvalidZone(zone));
        }
        if !(1 <= precision && precision <= 11) {
            return Err(Error::InvalidPrecision(precision));
        }
        match check_coords(zone != UPS, northp, easting, northing) {
            Ok(_) => Ok(Mgrs { utm: UtmUps { zone, northp, easting, northing }, precision }),
            Err(e) => Err(e),
        }
    }

    /// Whether the point is a UTM point (not UPS).
    pub fn is_utm(&self) -> (r: bool)
        ensures
            r == (self.utm.zone != UPS),
    {
        self.utm.zone != UPS
    }

    /// The zone: 0 for UPS, else the UTM zone.
    pub fn zone(&self) -> (r: i32)
        ensures
            r == self.utm.zone,
    {
        self.utm.zone
    }

    /// Whether the point is in the northern hemisphere.
    pub fn is_north(&self) -> (r: bool)
        ensures
            r == self.utm.northp,
    {
        self.utm.northp
    }

    /// Easting in nanometres.
    pub fn easting(&self) -> (r: i64)
        ensures
            r == self.utm.easting,
    {
        self.utm.easting
    }

    /// Northing in nanometres.
    pub fn northing(&self) -> (r: i64)
        ensures
            r == self.utm.northing,
    {
        self.utm.northing
    }

    /// Number of digit pairs written.
    pub fn precision(&self) -> (r: i32)
        ensures
            r == self.precision,
    {
        self.precision
    }

    /// Sets the number of digit pairs written, which must be in `[1, 11]`.
    pub fn set_precision(&mut self, precision: i32) -> (r: Result<(), Error>)
        ensures
            1 <= precision <= 11 ==> r is Ok && *final(self) == (Mgrs { precision, ..*old(self) }),
            !(1 <= precision <= 11) ==> r == Err::<(), Error>(Error::InvalidPrecision(precision))
                && *final(self) == *old(self),
    {
        if !(1 <= precision && precision <= 11) {
            return Err(Error::InvalidPrecision(precision));
        }
        self.precision = precision;
        Ok(())
    }

    /// The MGRS point at a UTM/UPS position, with the given precision.
    pub fn from_utmups(value: &UtmUps, precision: i32) -> (r: Mgrs)
        ensures
            r == (Mgrs { utm: *value, precision }),
    {
        Mgrs { utm: *value, precision }
    }

    /// The UTM/UPS position of this point.
    pub fn to_utmups(&self) -> (r: UtmUps)
        ensures
            r == self.utm,
    {
        self.utm
    }

    /// The latitude band of this point estimated from its northing; `None`
    /// when the latitude of the inverse projection must decide (see
    /// `band_estimate`).
    #[verifier::rlimit(50)]
    pub fn latitude_band_estimate(&self) -> (r: Option<i32>)
        ensures
            match band_estimate(*self) {
                None => r is None,
                Some(b) => r == Some(b as i32),
            },
    {
        if self.utm.zone == UPS {
            return Some(0);
        }
        let y: i128 = if self.utm.northp {
            self.utm.northing as i128
        } else {
            self.utm.northing as i128 - MAXUTM_S_ROW as i128 * TILE_NM as i128
        };
        if -1 <= y && y <= 1 {
            return Some(
                if !self.utm.northp && y == 1 {
                    0
                } else {
                    -1
                },
            );
        }
        if -(TILE_NM as i128) < y && y < TILE_NM as i128 {
            return Some(
                if y > 0 {
                    0
                } else {
                    -1
                },
            );
        }
        if !(-100 * (TILE_NM as i128) <= y && y <= 100 * (TILE_NM as i128)) {
            return None;
        }
        let ymm = floor_div_i128(y, 1_000_000);
        assert(-10_000_000_000 <= ymm <= 10_000_000_000);
        let sign: i128 = if y > 0 {
            1
        } else {
            -1
        };
        let poleward = floor_div_i128(901 * ymm + sign * 13_500_000_000, 100_000_000_000);
        proof {
            assert(0 <= ymm * ymm <= 100_000_000_000_000_000_000) by (nonlinear_arith)
                requires
                    -10_000_000_000 <= ymm <= 10_000_000_000,
            ;
        }
        let sq = ymm * ymm;
        let factor = 1_000_000_000_000_000_000_000_000 - 185 * sq;
        proof {
            assert(-100_000_000_000_000_000_000_000_000_000_000_000_000 <= 902 * ymm * factor
                <= 100_000_000_000_000_000_000_000_000_000_000_000_000) by (nonlinear_arith)
                requires
                    -10_000_000_000 <= ymm <= 10_000_000_000,
                    0 <= factor <= 1_000_000_000_000_000_000_000_000,
            ;
        }
        let eastward = floor_div_i128(
            902 * ymm * factor,
            100_000_000_000_000_000_000_000_000_000_000_000,
        );
        assert(-100_000_000_000 <= poleward <= 100_000_000_000);
        let bp = to_latitude_band(clamp_degrees(poleward));
        let be = to_latitude_band(clamp_degrees(eastward));
        if bp == be {
            Some(bp)
        } else {
            None
        }
    }
}

/// Clamps a whole number of degrees to `[-1000, 1000]`, which keeps its
/// latitude band.
fn clamp_degrees(v: i128) -> (r: i32)
    ensures
        latitude_band(r as int) == latitude_band(v as int),
{
    if v < -1000 {
        -1000
    } else if v > 1000 {
        1000
    } else {
        v as i32
    }
}

} // verus!

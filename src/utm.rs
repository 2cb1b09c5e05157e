//! UTM/UPS projected coordinates in fixed point.
use vstd::prelude::*;

use crate::grid::{MAXUPS_N_IND, MAXUPS_S_IND, MAXUTMCOL, MAXUTM_N_ROW, MAXUTM_S_ROW, MAXZONE, MINUPS_N_IND, MINUPS_S_IND, MINUTMCOL, MINUTM_N_ROW, MINUTM_S_ROW, MINZONE, TILE, TILE_NM, UPS, UPSEASTING, UTMEASTING};
use crate::mgrs::Mgrs;
use crate::text::{km_text, push_km, push_str};
use crate::Error;

verus! {

/// A UTM or UPS point: zone 0 is UPS, 1 to 60 a UTM zone. Easting and
/// northing are in nanometres and include the false easting and northing.
#[derive(Clone, Copy, Debug, PartialEq, Eq, Structural)]
pub struct UtmUps {
    pub zone: i32,
    pub northp: bool,
    pub easting: i64,
    pub northing: i64,
}

/// Smallest easting tile index of the zone kind and hemisphere.
pub open spec fn min_easting_ind(utmp: bool, northp: bool) -> int {
    if utmp {
        MINUTMCOL as int
    } else if northp {
        MINUPS_N_IND as int
    } else {
        MINUPS_S_IND as int
    }
}

/// Tile index just past the largest easting of the zone kind and hemisphere.
pub open spec fn max_easting_ind(utmp: bool, northp: bool) -> int {
    if utmp {
        MAXUTMCOL as int
    } else if northp {
        MAXUPS_N_IND as int
    } else {
        MAXUPS_S_IND as int
    }
}

/// Smallest northing tile index of the zone kind and hemisphere.
pub open spec fn min_northing_ind(utmp: bool, northp: bool) -> int {
    if utmp {
        if northp {
            MINUTM_N_ROW + MINUTM_S_ROW - MAXUTM_S_ROW
        } else {
            MINUTM_S_ROW as int
        }
    } else if northp {
        MINUPS_N_IND as int
    } else {
        MINUPS_S_IND as int
    }
}

/// Tile index just past the largest northing of the zone kind and hemisphere.
pub open spec fn max_northing_ind(utmp: bool, northp: bool) -> int {
    if utmp {
        if northp {
            MAXUTM_N_ROW as int
        } else {
            MAXUTM_S_ROW + MAXUTM_N_ROW - MINUTM_N_ROW
        }
    } else if northp {
        MAXUPS_N_IND as int
    } else {
        MAXUPS_S_IND as int
    }
}

pub(crate) fn min_easting(utmp: bool, northp: bool) -> (r: i64)
    ensures
        r == min_easting_ind(utmp, northp),
{
    if utmp {
        MINUTMCOL as i64
    } else if northp {
        MINUPS_N_IND as i64
    } else {
        MINUPS_S_IND as i64
    }
}

pub(crate) fn max_easting(utmp: bool, northp: bool) -> (r: i64)
    ensures
        r == max_easting_ind(utmp, northp),
{
    if utmp {
        MAXUTMCOL as i64
    } else if northp {
        MAXUPS_N_IND as i64
    } else {
        MAXUPS_S_IND as i64
    }
}

pub(crate) fn min_northing(utmp: bool, northp: bool) -> (r: i64)
    ensures
        r == min_northing_ind(utmp, northp),
{
    if utmp {
        if northp {
            (MINUTM_N_ROW + MINUTM_S_ROW - MAXUTM_S_ROW) as i64
        } else {
            MINUTM_S_ROW as i64
        }
    } else if northp {
        MINUPS_N_IND as i64
    } else {
        MINUPS_S_IND as i64
    }
}

pub(crate) fn max_northing(utmp: bool, northp: bool) -> (r: i64)
    ensures
        r == max_northing_ind(utmp, northp),
{
    if utmp {
        if northp {
            MAXUTM_N_ROW as i64
        } else {
            (MAXUTM_S_ROW + MAXUTM_N_ROW - MINUTM_N_ROW) as i64
        }
    } else if northp {
        MAXUPS_N_IND as i64
    } else {
        MAXUPS_S_IND as i64
    }
}

/// Whether an easting lies in the window of its zone kind and hemisphere,
/// widened by one tile on each side.
pub open spec fn easting_in_window(utmp: bool, northp: bool, x: int) -> bool {
    (min_easting_ind(utmp, northp) - 1) * TILE_NM <= x <= (max_easting_ind(utmp, northp) + 1)
        * TILE_NM
}

/// Whether a northing lies in the window of its zone kind and hemisphere,
/// widened by one tile on each side.
pub open spec fn northing_in_window(utmp: bool, northp: bool, y: int) -> bool {
    (min_northing_ind(utmp, northp) - 1) * TILE_NM <= y <= (max_northing_ind(utmp, northp) + 1)
        * TILE_NM
}

/// Whether `zone` is UPS or a UTM zone.
pub open spec fn valid_zone(zone: int) -> bool {
    MINZONE <= zone <= MAXZONE
}

/// The message for a coordinate outside its window: the axis, the value and
/// the window, in kilometres; `mgrs` marks the MGRS window.
pub open spec fn window_text(
    axis: Seq<char>,
    v: int,
    mgrs: bool,
    utmp: bool,
    northp: bool,
    lo: int,
    hi: int,
) -> Seq<char> {
    axis + " "@ + km_text(v) + (if mgrs {
        if utmp {
            " not in MGRS/UTM range for "@
        } else {
            " not in MGRS/UPS range for "@
        }
    } else {
        if utmp {
            " not in UTM range for "@
        } else {
            " not in UPS range for "@
        }
    }) + (if northp {
        "N hemisphere ["@
    } else {
        "S hemisphere ["@
    }) + km_text(lo) + ", "@ + km_text(hi) + "]"@
}

/// The message of `check_window` for a point outside the widened window:
/// it names the easting when that is outside, else the northing.
pub open spec fn utm_window_error(utmp: bool, northp: bool, x: int, y: int) -> Seq<char> {
    if !easting_in_window(utmp, northp, x) {
        window_text(
            "Easting"@,
            x,
            false,
            utmp,
            northp,
            (min_easting_ind(utmp, northp) - 1) * TILE_NM,
            (max_easting_ind(utmp, northp) + 1) * TILE_NM,
        )
    } else {
        window_text(
            "Northing"@,
            y,
            false,
            utmp,
            northp,
            (min_northing_ind(utmp, northp) - 1) * TILE_NM,
            (max_northing_ind(utmp, northp) + 1) * TILE_NM,
        )
    }
}

/// Builds the message of `window_text`.
pub(crate) fn window_message(
    axis: &str,
    v: i64,
    mgrs: bool,
    utmp: bool,
    northp: bool,
    lo: i64,
    hi: i64,
) -> (r: String)
    ensures
        r@ == window_text(axis@, v as int, mgrs, utmp, northp, lo as int, hi as int),
{
    let mut s = String::new();
    push_str(&mut s, axis);
    push_str(&mut s, " ");
    push_km(&mut s, v);
    let range = if mgrs {
        if utmp {
            " not in MGRS/UTM range for "
        } else {
            " not in MGRS/UPS range for "
        }
    } else {
        if utmp {
            " not in UTM range for "
        } else {
            " not in UPS range for "
        }
    };
    push_str(&mut s, range);
    push_str(&mut s, if northp { "N hemisphere [" } else { "S hemisphere [" });
    push_km(&mut s, lo);
    push_str(&mut s, ", ");
    push_km(&mut s, hi);
    push_str(&mut s, "]");
    s
}

/// Checks an easting and northing against the window, widened by one tile
/// on each side, of their zone kind and hemisphere.
pub(crate) fn check_window(utmp: bool, northp: bool, x: i64, y: i64) -> (r: Result<(), Error>)
    ensures
        (easting_in_window(utmp, northp, x as int) && northing_in_window(utmp, northp, y as int))
            ==> r is Ok,
        !(easting_in_window(utmp, northp, x as int) && northing_in_window(utmp, northp, y as int))
            ==> (r matches Err(Error::InvalidUtmCoords(msg)) && msg@ == utm_window_error(
            utmp,
            northp,
            x as int,
            y as int,
        )),
{
    let lo = (min_easting(utmp, northp) - 1) * TILE_NM;
    let hi = (max_easting(utmp, northp) + 1) * TILE_NM;
    if x < lo || x > hi {
        return Err(
            Error::InvalidUtmCoords(window_message("Easting", x, false, utmp, northp, lo, hi)),
        );
    }
    let lo = (min_northing(utmp, northp) - 1) * TILE_NM;
    let hi = (max_northing(utmp, northp) + 1) * TILE_NM;
    if y < lo || y > hi {
        return Err(
            Error::InvalidUtmCoords(window_message("Northing", y, false, utmp, northp, lo, hi)),
        );
    }
    Ok(())
}

/// False easting of the zone kind and hemisphere, in metres.
pub open spec fn false_easting_m(utmp: bool) -> int {
    if utmp {
        UTMEASTING * TILE
    } else {
        UPSEASTING * TILE
    }
}

/// False northing of the zone kind and hemisphere, in metres.
pub open spec fn false_northing_m(utmp: bool, northp: bool) -> int {
    if utmp {
        if northp {
            MINUTM_N_ROW * TILE
        } else {
            MAXUTM_S_ROW * TILE
        }
    } else {
        UPSEASTING * TILE
    }
}

/// False easting, in metres: 500 km for UTM, 2000 km for UPS.
pub fn false_easting(utmp: bool) -> (r: i32)
    ensures
        r == false_easting_m(utmp),
{
    if utmp {
        UTMEASTING * TILE
    } else {
        UPSEASTING * TILE
    }
}

/// False northing, in metres: 0 for northern UTM, 10000 km for southern
/// UTM, 2000 km for UPS.
pub fn false_northing(utmp: bool, northp: bool) -> (r: i32)
    ensures
        r == false_northing_m(utmp, northp),
{
    if utmp {
        if northp {
            MINUTM_N_ROW * TILE
        } else {
            MAXUTM_S_ROW * TILE
        }
    } else {
        UPSEASTING * TILE
    }
}

impl UtmUps {
    /// Builds a UTM/UPS point from its parts, after checking them: the zone
    /// must be in `[0, 60]`, and easting and northing must lie in the window
    /// of the zone kind and hemisphere, widened by one tile on each side.
    pub fn create(zone: i32, northp: bool, easting: i64, northing: i64) -> (r: Result<
        UtmUps,
        Error,
    >)
        ensures
            !valid_zone(zone as int) ==> r == Err::<UtmUps, Error>(Error::InvalidZone(zone)),
            valid_zone(zone as int) && !(easting_in_window(zone != UPS, northp, easting as int)
                && northing_in_window(zone != UPS, northp, northing as int)) ==> (r matches Err(
                Error::InvalidUtmCoords(msg),
            ) && msg@ == utm_window_error(zone != UPS, northp, easting as int, northing as int)),
            valid_zone(zone as int) && easting_in_window(zone != UPS, northp, easting as int)
                && northing_in_window(zone != UPS, northp, northing as int) ==> r == Ok::<
                UtmUps,
                Error,
            >(UtmUps { zone, northp, easting, northing }),
    {
        if !(MINZONE <= zone && zone <= MAXZONE) {
            return Err(Error::InvalidZone(zone));
        }
        let utmp = zone != UPS;
        match check_window(utmp, northp, easting, northing) {
            Ok(()) => Ok(UtmUps { zone, northp, easting, northing }),
            Err(e) => Err(e),
        }
    }

    /// The zone: 0 for UPS, else the UTM zone.
    pub fn zone(&self) -> (r: i32)
        ensures
            r == self.zone,
    {
        self.zone
    }

    /// Whether the point is in the northern hemisphere.
    pub fn is_north(&self) -> (r: bool)
        ensures
            r == self.northp,
    {
        self.northp
    }

    /// Easting in nanometres.
    pub fn easting(&self) -> (r: i64)
        ensures
            r == self.easting,
    {
        self.easting
    }

    /// Northing in nanometres.
    pub fn northing(&self) -> (r: i64)
        ensures
            r == self.northing,
    {
        self.northing
    }

    /// The MGRS point at this position, with the given precision.
    pub fn to_mgrs(&self, precision: i32) -> (r: Mgrs)
        ensures
            r == (Mgrs { utm: *self, precision }),
    {
        Mgrs { utm: *self, precision }
    }

    /// The UTM/UPS position of an MGRS point.
    pub fn from_mgrs(value: &Mgrs) -> (r: UtmUps)
        ensures
            r == value.utm,
    {
        value.utm
    }
}

} // verus!

//! Conversions between UTM/UPS grid coordinates and MGRS grid references
//! on the WGS84 ellipsoid: the integer and text side of the engine.
//!
//! Eastings and northings are held in nanometres, so that every MGRS tile
//! centre, down to the 1 micrometre resolution, is exact.

pub mod grid;
pub mod text;
pub mod utm;
pub mod mgrs;
pub mod parse;
pub mod format;
pub mod laws;

pub use grid::{central_meridian, standard_zone, to_latitude_band};
pub use mgrs::{utm_row, Mgrs};
pub use utm::UtmUps;

use vstd::prelude::*;

verus! {

/// Errors reported by the coordinate constructors and the MGRS codec.
#[derive(Debug, PartialEq, Eq)]
pub enum Error {
    /// The MGRS precision is outside `[1, 11]`.
    InvalidPrecision(i32),
    /// The zone is outside `[0, 60]`.
    InvalidZone(i32),
    /// Latitude or longitude parameters are not valid.
    InvalidCoord(String),
    /// The MGRS text cannot be parsed, or the position has no MGRS form.
    InvalidMgrs(String),
    /// Easting or northing lie outside the window of their zone and hemisphere.
    InvalidUtmCoords(String),
    /// A coordinate cannot be converted to the requested kind.
    InvalidRange { coord_type: String, dest_type: String, msg: String },
}

} // verus!

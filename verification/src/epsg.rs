//! EPSG code facts used when reprojecting bounding boxes to WGS84.
use vstd::prelude::*;

verus! {

/// Geographic CRS that are WGS84 for this purpose: their datums differ from
/// WGS84 by less than a millimetre, so only the axis order needs care.
pub open spec fn wgs84_equivalent_geographic(epsg: u32) -> bool {
    epsg == 4326 || epsg == 4979 || epsg == 6668
}

/// Whether an EPSG code is a geographic CRS essentially identical to WGS84
/// (WGS84 2D and 3D, JGD2011 2D).
pub fn is_wgs84_equivalent_geographic(epsg: u32) -> (r: bool)
    ensures
        r == wgs84_equivalent_geographic(epsg),
{
    epsg == 4326 || epsg == 4979 || epsg == 6668
}

/// Whether a projected CRS declares northing as its first axis (Estonian
/// Coordinate System of 1997); coordinates in it must be swapped before
/// projection.
pub fn is_northing_first_projected(epsg: u32) -> (r: bool)
    ensures
        r == (epsg == 3301),
{
    epsg == 3301
}

/// The horizontal component of the compound CRS this library knows; any
/// other code is its own horizontal component.
pub open spec fn horizontal_epsg(epsg: u32) -> u32 {
    if epsg == 7415 {
        28992
    } else if epsg == 9518 {
        25832
    } else if epsg == 9519 {
        25833
    } else if epsg == 6150 {
        2056
    } else if epsg == 5775 {
        31287
    } else if epsg == 6190 {
        31370
    } else if epsg == 6697 {
        6668
    } else {
        epsg
    }
}

/// Resolves a compound CRS (horizontal plus vertical) to its horizontal
/// component: Amersfoort / RD New + NAP, ETRS89 / UTM 32N and 33N + DHHN2016,
/// CH1903+ / LV95 + LN02, MGI / Austria Lambert, Belge 1972 / Belgian
/// Lambert 72 + Ostend, and JGD2011 geographic 3D.
pub fn resolve_horizontal_epsg(epsg: u32) -> (r: u32)
    ensures
        r == horizontal_epsg(epsg),
{
    match epsg {
        7415 => 28992,
        9518 => 25832,
        9519 => 25833,
        6150 => 2056,
        5775 => 31287,
        6190 => 31370,
        6697 => 6668,
        _ => epsg,
    }
}

/// Resolving the horizontal component twice is resolving it once: every
/// component is itself a horizontal CRS.
pub proof fn law_horizontal_epsg_idempotent(epsg: u32)
    ensures
        horizontal_epsg(horizontal_epsg(epsg)) == horizontal_epsg(epsg),
{
}

} // verus!

//! Choosing the machine's position among the answers of a geolocation
//! service.
//!
//! The service reports one position per upstream provider; the daemon trusts
//! them in a fixed order: FreeGeoIP, then ipapi, then ipwhois.
use vstd::prelude::*;

verus! {

/// The upstream provider that reported a position.
#[derive(Debug, Clone, Copy, PartialEq, Eq, Structural)]
pub enum Source {
    FreeGeoIP,
    IpAPI,
    IpWhoIs,
}

/// One reported position. Coordinates are in decimal degrees, carried as
/// the bits of `f64` values.
#[derive(Debug, Clone, Copy, PartialEq, Eq, Structural)]
pub struct Location {
    pub lat_bits: u64,
    pub lng_bits: u64,
    pub source: Source,
}

/// Why no position could be chosen.
#[derive(Debug, Clone, Copy, PartialEq, Eq, Structural)]
pub enum LocationError {
    /// No provider that the daemon trusts reported a position.
    NoLocation,
}

/// The coordinates of the first position in `locs` reported by `source`.
pub open spec fn first_from(locs: Seq<Location>, source: Source) -> Option<(u64, u64)>
    decreases locs.len(),
{
    if locs.len() == 0 {
        None
    } else if locs[0].source == source {
        Some((locs[0].lat_bits, locs[0].lng_bits))
    } else {
        first_from(locs.drop_first(), source)
    }
}

/// The position the daemon uses: the first one from FreeGeoIP, else the
/// first one from ipapi, else the first one from ipwhois.
pub open spec fn preferred_location(locs: Seq<Location>) -> Option<(u64, u64)> {
    match first_from(locs, Source::FreeGeoIP) {
        Some(p) => Some(p),
        None => match first_from(locs, Source::IpAPI) {
            Some(p) => Some(p),
            None => first_from(locs, Source::IpWhoIs),
        },
    }
}

/// The coordinates of the first position in `locs` reported by `source`.
pub fn find_from(locs: &Vec<Location>, source: Source) -> (r: Option<(u64, u64)>)
    ensures
        r == first_from(locs@, source),
{
    let n = locs.len();
    assert(locs@.subrange(0, n as int) =~= locs@);
    for i in 0..n
        invariant
            n == locs@.len(),
            first_from(locs@, source) == first_from(locs@.subrange(i as int, n as int), source),
    {
        assert(locs@.subrange(i as int, n as int).drop_first() =~= locs@.subrange(
            i + 1,
            n as int,
        ));
        if locs[i].source == source {
            return Some((locs[i].lat_bits, locs[i].lng_bits));
        }
    }
    None
}

/// The position to use among `locs`, as (latitude, longitude) bits.
pub fn pick_location(locs: &Vec<Location>) -> (r: Result<(u64, u64), LocationError>)
    ensures
        r matches Ok(p) ==> preferred_location(locs@) == Some(p),
        r is Err <==> preferred_location(locs@) is None,
{
    if let Some(p) = find_from(locs, Source::FreeGeoIP) {
        return Ok(p);
    }
    if let Some(p) = find_from(locs, Source::IpAPI) {
        return Ok(p);
    }
    match find_from(locs, Source::IpWhoIs) {
        Some(p) => Ok(p),
        None => Err(LocationError::NoLocation),
    }
}

} // verus!

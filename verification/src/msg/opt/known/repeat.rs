//! Numbers of options that may be repeated
use vstd::prelude::*;

verus! {

/// If-Match
pub const IF_MATCH: u32 = 1;

/// ETag
pub const ETAG: u32 = 4;

/// Location-Path
pub const LOCATION_PATH: u32 = 8;

/// Uri-Path
pub const PATH: u32 = 11;

/// Uri-Query
pub const QUERY: u32 = 15;

/// Location-Query
pub const LOCATION_QUERY: u32 = 20;

} // verus!

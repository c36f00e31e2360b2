//! Numbers of options that may be set at most once
use vstd::prelude::*;

verus! {

/// Uri-Host
pub const HOST: u32 = 3;

/// Observe
pub const OBSERVE: u32 = 6;

/// If-None-Match
pub const IF_NONE_MATCH: u32 = 5;

/// Uri-Port
pub const PORT: u32 = 7;

/// Uri-Path
pub const PATH: u32 = 11;

/// Content-Format
pub const CONTENT_FORMAT: u32 = 12;

/// Max-Age
pub const MAX_AGE: u32 = 14;

/// Accept
pub const ACCEPT: u32 = 17;

/// Block2
pub const BLOCK2: u32 = 23;

/// Block1
pub const BLOCK1: u32 = 27;

/// Size2
pub const SIZE2: u32 = 28;

/// Proxy-Uri
pub const PROXY_URI: u32 = 35;

/// Proxy-Scheme
pub const PROXY_SCHEME: u32 = 39;

/// Size1
pub const SIZE1: u32 = 60;

} // verus!

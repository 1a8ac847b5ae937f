//! The bound table: the closed range of each unsigned field, the threshold
//! sentinel literal, and the cache time-to-live.  The pipeline is driven by
//! these values; the bounds of the threshold field live in `decimal`.

use vstd::prelude::*;

verus! {

pub const NSWEEPS_MIN: u32 = 20;

pub const NSWEEPS_MAX: u32 = 3000;

pub const NF_MIN: u32 = 10000;

pub const NF_MAX: u32 = 2000000;

pub const SMAX_MIN: u32 = 100;

pub const SMAX_MAX: u32 = 5000;

pub const LOCAL_MIN: u32 = 0;

pub const LOCAL_MAX: u32 = 500;

/// How long a cached result stays valid: 24 hours, in seconds.
pub const CACHE_TTL_SECS: u64 = 86400;

/// What the threshold field renders to when it is set exactly to its
/// configured minimum: the "no threshold" sentinel.
pub const NEG_INFINITY_LITERAL: &'static str = "f64::NEG_INFINITY";

} // verus!

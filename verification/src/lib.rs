//! Backend library for a compile-and-run service: a request carries numeric
//! parameters and a user-authored code fragment; the library validates the
//! parameters, derives a cache fingerprint, renders the fragment into a fixed
//! program skeleton, and assembles the canonical response record.  The
//! network transport, the cache backend and the toolchain subprocess are
//! external collaborators driven by an unverified shell around this crate.

pub mod bounds;
pub mod decimal;
pub mod fingerprint;
pub mod gate;
pub mod json;
pub mod outcome;
pub mod payload;
pub mod pipeline;
pub mod render;
pub mod text;
pub mod validate;

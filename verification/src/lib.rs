//! An access-controlled, keyed registry of per-account player records.
//!
//! The registry tracks, for every account identity, a display name and two
//! pairs of win/total counters (matches and predictions). A one-time
//! initialization fixes an owner; only the owner may configure the two
//! collaborator addresses that are in turn the only callers allowed to
//! report match and prediction results.

pub mod address;
pub mod laws;
pub mod record;
pub mod registry;
pub mod store;

//! A small secret-vault service core, verified: bearer tokens are checked
//! against per-secret read/write permissions, secret payloads are fetched
//! or replaced, every access is recorded in an append-only audit log keyed
//! by client address, and every failure renders through one
//! content-negotiated error path.  The transport and persistence layers
//! stay outside; the core works on plain values and a store model whose
//! contracts are the query contracts it relies on.

use vstd::prelude::*;

mod clock;
pub mod addr;
pub mod audit;
pub mod errors;
pub mod parse;
pub mod response;
pub mod routes;
pub mod secret;
pub mod settings;
pub mod store;
pub mod textops;
pub mod token;

verus! {

/// A moment in time, measured in milliseconds since the Unix epoch.
///
/// The core never inspects the clock itself: every function that depends on
/// the current time takes it as an explicit argument, so its contract holds
/// for every possible reading of the clock.
pub type Timestamp = i64;

} // verus!

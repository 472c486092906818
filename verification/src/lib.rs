//! A watch-driven synchronization cache for remote deployment records.
//!
//! The crate keeps a local, continuously updated mirror of a collection of
//! remote objects and serves point and bulk lookups against that mirror.
//! It is organised around four verified pieces:
//!
//! - [`object`]: the plain-value data model — the composite key, the raw
//!   remote record, and the domain-visible entry;
//! - [`projector`]: the pure derivation of an entry from a raw record;
//! - [`store`]: a single-writer key/value cache whose reads always see a
//!   complete snapshot;
//! - [`mirror`]: the list-then-watch state machine that reconciles a change
//!   feed into the store and recovers from stream interruption.
//!
//! Network transport, the HTTP facade and process bootstrap are deliberately
//! outside the crate: the mirror exposes its decisions as plain transition
//! functions, and whatever drives the process performs the corresponding
//! list, watch and sleep calls.

pub mod object;
pub mod projector;
pub mod laws;
pub mod mirror;
pub mod store;

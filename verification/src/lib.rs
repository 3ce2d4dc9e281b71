//! A verified seat-reservation ledger: a registry of occasions (events with a
//! fixed seat capacity and price) and an append-only record of seat sales,
//! guarded by a single administrative identity.

pub mod errors;
pub mod laws;
pub mod master;
pub mod occasions;

pub use errors::Error;
pub use master::TokenMaster;
pub use occasions::Occasion;

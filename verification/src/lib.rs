//! A record store for CV items: identifier allocation, the primary map from
//! identifier to record, the per-account index of created records, the
//! approval status overlay, and the four mutations that keep them consistent.

pub mod consistency;
pub mod index;
pub mod item;
pub mod pallet;
pub mod request;
pub mod rpc;
pub mod laws;

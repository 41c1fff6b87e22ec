//! A registry of kitties: content-addressed records minted into a global
//! registry and a per-owner bounded ownership index, with a global count.

pub mod types;
pub mod hashing;
pub mod store;
pub mod pallet;
pub mod laws;

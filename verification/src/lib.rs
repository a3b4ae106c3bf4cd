//! A type-indexed registry: at most one value per static type, found again by that type.
//!
//! The values of many types live behind one uniform store. `erased` is the boundary with
//! `std::any`, which does the forgetting and the checked recovery of a value's type;
//! `registry` is the store itself, keyed by `TypeId` and proved against a map from keys to
//! slots; `laws` states what binding and finding promise each other.

pub mod erased;
pub mod laws;
pub mod registry;

pub use registry::JabDI;

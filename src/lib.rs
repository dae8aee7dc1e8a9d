//! An append-only store of links, held in one region whose size is fixed when
//! the store is created.
//!
//! `capacity` computes that size from the two limits of the store; `store`
//! holds the records and the two operations on them, `start_stuff_off` and
//! `add_gif`; `layout` writes a store in its persisted byte form; `laws`
//! states what holds over every run of operations.

pub mod capacity;
pub mod laws;
pub mod layout;
pub mod store;

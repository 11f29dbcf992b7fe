//! A verified registry of unique, breedable digital assets ("kitties").
//!
//! The registry tracks ownership of sequentially numbered items, each carrying
//! a refundable deposit reserved from its owner's balance. Items can be listed
//! for sale, transferred, bought at a bid price, and bred: a child genome is a
//! per-bit random mixture of two parent genomes. Every operation either
//! succeeds and mutates item state, the ownership index and the ledger
//! together, or fails and leaves the whole state unchanged.

pub mod genome;
pub mod laws;
pub mod ledger;
pub mod pallet;

//! Planning engine for generating vault-proxy CPI instruction sets from an
//! Anchor-style interface description.
//!
//! The library flattens an instruction's nested account tree into an ordered
//! leaf list, decides which leaves the proxy keeps and which are aliased to
//! the fixed vault or signer accounts, computes the position index map from
//! original account slots to proxy-struct slots, derives the 8-byte
//! instruction discriminators, plans how flattened accounts are supplied to
//! the forwarded call, and aggregates the per-instruction results into a
//! program-level remapping table.

pub mod casing;
pub mod discriminator;
pub mod idl;
pub mod config;
pub mod flatten;
pub mod assemble;
pub mod plan;
pub mod remap;

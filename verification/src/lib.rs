//! Board-level bus routing and multi-chip synchronisation for a handful of
//! historic machines: an 8080 arcade board, a 4004 desktop calculator and
//! the HP classic calculators.
//!
//! Every board owns its chips as plain values. Address decoding, bank
//! selection, the wired-OR bus merge, the serial shift cascade and the edge
//! detection of mechanical signals are stated as contracts over those values.

pub mod merge;
pub mod latch;
pub mod shifter;
pub mod image;
pub mod arcade;
pub mod busicom141pf;
pub mod hp35;
pub mod hp_classic;

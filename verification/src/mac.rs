//! IEEE 802.15.4 MAC layer for beacon-enabled ranging.
pub mod format;

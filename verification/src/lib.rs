//! HRP UWB radio network stack: PHY definitions, a DW3000 register-level
//! driver core and the IEEE 802.15.4 MAC frame format used for ranging.
pub mod phy;
pub mod dw3000;
pub mod mac;
pub mod psdu;

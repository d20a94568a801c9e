//! Driver core of the Qorvo DW3000 UWB transceiver: register access, the
//! one-time programmable calibration data, device configuration and the
//! decisions of the PHY operations.
pub mod interface;
pub mod ral;
pub mod otp;
pub mod device;
pub mod driver;

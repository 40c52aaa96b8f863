//! Offline replay and analysis of ARM ADIv5 debug-port traffic.
//!
//! Captured traffic is lowered to a stream of ADI commands, run through a
//! virtual DP/AP machine, and decoded against register descriptions.

pub mod adi;
pub mod cli;
pub mod cmsis_dap;
pub mod common;
pub mod from_cmsis_dap_ws_pdml;
pub mod from_sigrok_swd;
pub mod pdml;
pub mod regdoctor;
pub mod regdoctor_adios_ext;
pub mod text;

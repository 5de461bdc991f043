//! Capture scheduling and input sequencing for recording animated captures
//! of an emulator window.

pub mod assemble;
pub mod config;
pub mod input;
pub mod keys;
pub mod schedule;
pub mod sequence;
pub mod session;
pub mod timing;

//! Core of a capture daemon's recording supervisor: the recording state
//! machine, the device control bus, delayed device activation and the
//! supervisor's decision step.

pub mod device;
pub mod recording;
pub mod bus;
pub mod activation;
pub mod config;
pub mod status;
pub mod supervisor;

//! Core of a local activity-monitoring daemon: the persistent run-state of its
//! capture service, the local control protocol, the capture-loop retry policy,
//! and the window-focus activity tracker.

pub mod analyze;
pub mod capture;
pub mod codec;
pub mod config;
pub mod context;
pub mod num;
pub mod permissions;
pub mod protocol;
pub mod screen;
pub mod state;
pub mod tracker;

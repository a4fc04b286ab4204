//! Core of an NTP client daemon's time-synchronization logic: per-peer
//! reachability and acceptance checks, a fixed-point Kalman filter per peer,
//! peer selection and consensus combination, and the clock-steering
//! controller.
//!
//! All real-valued quantities are 32.32 fixed-point integers; the surrounding
//! daemon performs the actual socket and clock I/O and acts on the fatal
//! conditions the controller reports.

pub mod clock;
pub mod combine;
pub mod config;
pub mod controller;
pub mod filter;
pub mod fixed;
pub mod matrix;
pub mod packet;
pub mod peer;
pub mod select;
pub mod time;

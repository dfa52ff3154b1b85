//! VDSleep: follows a Virtual Desktop headset with the PC's displays and
//! sound. When the headset connects, the output moves to a chosen (usually
//! virtual) display; when it disconnects, the startup layout comes back and
//! the sound can be muted.
//!
//! This crate holds the decisions and the display logic; the platform calls
//! (Win32, Core Audio, process and TCP tables, files) are made by the
//! caller, which hands their outcomes in.
pub mod text;
pub mod display;
pub mod monitor;
pub mod keyboard;
pub mod power;
pub mod audio;
pub mod config;
pub mod session;

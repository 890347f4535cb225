//! Decoding and dispatch for a USB button and rotary-encoder control panel.
//!
//! The crate turns raw input reports into panel events, looks the events up
//! in a table of command templates, and produces the shell command lines
//! and the colour frames that a driver then hands to the operating system
//! and to the device.

pub mod command;
pub mod config;
pub mod device;
pub mod handler;
pub mod numeral;
pub mod report;
pub mod text;

pub use command::TemplatedCommand;
pub use handler::PanelHandler;
pub use device::{open_first_device, PanelDevice};

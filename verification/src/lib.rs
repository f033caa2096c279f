//! Battery monitoring for Logitech HID++ wireless devices.
//!
//! The library holds what the monitor decides: the wire format, the request and
//! reply cycle, feature enumeration, device reads, the receiver worker and the
//! text it shows. It performs no input or output. Each conversation is a state
//! machine that names the next action and is told what came of it.

pub mod config;
pub mod device_map;
pub mod hid;
pub mod model;
pub mod text;
pub mod widget;

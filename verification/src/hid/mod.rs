//! HID++ receivers and the devices behind them.

pub mod battery;
pub mod client;
pub mod device;
pub mod diag;
pub mod discovery;
pub mod error;
pub mod exchange;
pub mod features;
pub mod name;
pub mod poll;
pub mod protocol;
pub mod receiver;
pub mod scanner;
pub mod slots;

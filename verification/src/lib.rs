//! Verified core of an ESP32-S3 dashboard: MQTT framing, payload
//! extraction, local time keeping, touch and navigation handling,
//! the framebuffer and the network and display schedulers.

pub mod mqtt;
pub mod text;
pub mod led;
pub mod net;
pub mod time;
pub mod display;
pub mod state;
pub mod theme;
pub mod touch;
pub mod framebuffer;
pub mod format;
pub mod wifi;
pub mod services;
pub mod payload;
pub mod control;
pub mod layout;
pub mod bounded;
pub mod icon;

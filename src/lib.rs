//! Passive 802.11 observation: frame decoding, the channel scheduler and the
//! catalog of stations, devices and per-minute traffic.
pub mod mac;
pub mod frame_control;
pub mod header;
pub mod elements;
pub mod frame;
pub mod channels;
pub mod config;
pub mod models;
pub mod catalog;
pub mod state;
pub mod radio;
pub mod observe;
pub mod bridge;

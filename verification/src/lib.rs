//! Verified core of audioleaf: the decisions and data transformations that
//! drive a Nanoleaf music visualizer, separated from its I/O.

pub mod api;
pub mod audio_select;
pub mod config;
pub mod devices;
pub mod health;
pub mod layout;
pub mod metadata;
pub mod migration;
pub mod now_playing;
pub mod panels;
pub mod shairport;
pub mod ssdp;
pub mod text;
pub mod utils;
pub mod visualizer;

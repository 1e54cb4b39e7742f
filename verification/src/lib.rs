//! The logic of a Home Assistant bridge for a desktop computer.
//!
//! Every item here is plain computation with a proved contract: MQTT topics and
//! packets, discovery payloads, command routing, configuration rules, module
//! supervision and the parsing of sensor snapshots. Sockets, files, processes
//! and platform calls belong to the program around the library.

pub mod agent;
pub mod audio;
pub mod commands;
pub mod config;
pub mod credential;
pub mod elevation;
pub mod fsutil;
pub mod hwinfo;
pub mod hwinfo_supervisor;
pub mod json;
pub mod linux_idle;
pub mod linux_wayland;
pub mod logging;
pub mod modules;
pub mod mqtt;
pub mod notification;
pub mod power;
pub mod quit_signal;
pub mod text;

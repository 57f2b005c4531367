//! The rules of a small peer-to-peer relay: a daemon that meets its peers through a signaling
//! server, and the desktop clients that steer it.
//!
//! The daemon ([`daemon`], [`channel`], [`signaling`], [`transfer`]) and the clients
//! ([`session`], [`notices`], [`prefs`], [`link`]) are state machines: a program around them
//! does the input and output that they ask for, and tells them what it came to.

pub mod channel;
pub mod config;
pub mod daemon;
pub mod exchange;
pub mod ipc;
pub mod json;
pub mod link;
pub mod listing;
pub mod names;
pub mod notices;
pub mod paths;
pub mod peers;
pub mod prefs;
pub mod relay;
pub mod session;
pub mod signaling;
pub mod text;
pub mod transfer;
pub mod wire;

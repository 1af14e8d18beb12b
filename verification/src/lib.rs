//! The device-side protocol engine of an ADB host server: the 24-byte
//! packet codec, the packet store that parks out-of-order packets per
//! stream, the protocol operations over a pluggable transport, the
//! authentication exchange, the file-sync sub-protocol, port forwards
//! and reverses, the device registry with its monitoring rules, and the
//! client request dispatcher.  Every function here is verified; the
//! sockets, the USB bus and the task runtime live outside, behind the
//! `Transport` trait and plain values.

pub mod actions;
pub mod assoc;
pub mod auth;
pub mod chars;
pub mod connection;
pub mod decimal;
pub mod device;
pub mod dispatch;
pub mod enums;
pub mod errors;
pub mod forward;
pub mod forward_info;
pub mod ids;
pub mod io;
pub mod message;
pub mod ops;
pub mod registry;
pub mod responses;
pub mod reverse;
pub mod store;
pub mod sync;
pub mod tinfo;
pub mod transport;

//! Byte-stream access to a block-addressed USB mass-storage device.
//!
//! The crate holds the decisions of three layers: picking the duplex bulk
//! endpoints out of a descriptor tree, staging bytes for one bulk transfer in
//! each direction, and a single-slot write-back block cache that turns
//! block transfers into `read` / `write` / `seek` / `flush` on bytes.
//! Every physical transfer is left to the caller: the cache names the block
//! it needs moved and is told what the device answered.

pub mod err;
pub mod buffer;
pub mod descriptor;
pub mod discovery_laws;
pub mod stream;
pub mod stream_laws;
pub mod device_model;
pub mod run_laws;
pub mod adapter;
pub mod usb_comm;

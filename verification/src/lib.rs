//! Core engine of a disk-imaging library: discovery of removable block
//! devices, a raw read pipeline (device to image file), and a raw write
//! pipeline (decompression, aligned device write, digest verification),
//! all cancellable at chunk boundaries and reporting progress events.
//!
//! The engine works over an explicit in-memory block-device model
//! ([`memdev::MemDevice`]); a front end drives the same chunk plans and
//! decision functions against real device files.

pub mod cancel;
pub mod chunks;
pub mod device;
pub mod digest;
pub mod errors;
pub mod memdev;
pub mod platform;
pub mod progress;
pub mod read;
pub mod text;
pub mod write;

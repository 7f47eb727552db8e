//! Platform-specific device discovery.
//!
//! Each submodule exposes discovery for one operating system behind the
//! same shape of interface, so the rest of the library and its front ends
//! have one code path. A platform without an implementation fails fast
//! with a distinguishable error instead of silently returning nothing.

pub mod linux;
pub mod windows;

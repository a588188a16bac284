//! A safety layer over a firmware-like host environment.
//!
//! The host hands out raw pool memory with a fixed baseline alignment,
//! identifies resources by opaque handles that must be released through
//! host-supplied routines, and returns variable-length binary records whose
//! size is only learned by probing.  This crate models that host as explicit
//! state and verifies the layer built on top of it: an alignment-adapting
//! allocator, an ownership wrapper that releases a resource exactly once, a
//! probe/allocate/retry protocol for variable-length queries, and the
//! self-describing device-path record format.

pub mod allocator;
pub mod boot;
pub mod codec;
pub mod debug;
pub mod device;
pub mod filesystem;
pub mod header;
pub mod image;
pub mod memory;
pub mod path;
pub mod pointer;
pub mod query;
pub mod status;
pub mod string;
pub mod system;
pub mod time;

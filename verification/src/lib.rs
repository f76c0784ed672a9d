//! Command-encoding and synchronization core of a low-level graphics API.
//!
//! The crate turns render-pass and compute-pass descriptors into an explicit,
//! ordered stream of native commands, while tracking the hardware-visible
//! state of every touched resource and synthesizing the minimal set of state
//! transition barriers.  Native backend objects (compiled render passes,
//! framebuffers, raw command buffers) are represented by opaque integer
//! handles; the backend that realises them lives outside this crate.

pub mod cache;
pub mod encoder;
pub mod format;
pub mod track;

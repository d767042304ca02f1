//! Verified core of a media-slideshow screensaver.
//!
//! The crate discovers playable media files under a set of root directories
//! and exposes them as a lazy, pull-based sequence of paths, optionally in a
//! locally randomized order produced by a bounded sampling window.  The
//! window/render loop, playback engine and settings UI are external
//! collaborators and live outside this crate; here are the directory walker,
//! the media-type classifier, the streaming sampler and the public sequence
//! types, each with its contract.

pub mod channel;
pub mod classify;
pub mod options;
pub mod probe;
pub mod sampler;
pub mod sequence;
pub mod walker;

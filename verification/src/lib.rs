//! Window-switcher overlay logic for a tiling Wayland compositor.
//!
//! The crate decides which windows get a label, where each label box sits on
//! screen, what a keystroke means while the overlay is armed, and which
//! compositor settings have to be put back when a session ends. It performs no
//! I/O itself: callers hand in what the compositor reported and carry out the
//! commands that come back.
//!
//! - [`window`]: windows and clients as plain values
//! - [`snapshot`]: which windows an activation offers, and in what order
//! - [`labels`]: which window gets which label
//! - [`geometry`]: where a label box goes
//! - [`overlay`]: what the overlay shows for a snapshot
//! - [`input`]: what a keystroke means
//! - [`session`]: one activation from request to clean-up

pub mod config;
pub mod geometry;
pub mod input;
pub mod labels;
pub mod overlay;
pub mod session;
pub mod snapshot;
pub mod window;

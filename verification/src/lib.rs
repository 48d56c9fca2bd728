//! Core of a tiling window manager: an ordered focus-tracking container,
//! viewport/strut geometry, a dock registry, layout algorithms, directional
//! navigation, workspace groups, and the orchestrator that ties outputs,
//! groups and windows together and reconciles placements.
//!
//! Everything that talks to the display server lives outside this crate; the
//! orchestrator consumes plain event data and yields a list of action
//! values for a caller to perform.

pub mod groups;
pub mod layout;
pub mod model;
pub mod navigation;
pub mod screen;
pub mod stack;
pub mod viewport;
pub mod wm;

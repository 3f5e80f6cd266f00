//! Arrangement engine for a display-output layout editor: the geometric
//! model of outputs, hit-testing, the drag and toggle state machine, the
//! overlap resolver that snaps a dragged output against its nearest
//! neighbour, and the normalizer that re-anchors a layout before it is
//! committed to the compositor.
pub mod geometry;
pub mod registry;
pub mod drag;
pub mod layout;
pub mod editor;
pub mod commands;
pub mod render;

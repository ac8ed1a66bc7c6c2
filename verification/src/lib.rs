//! Verified core of a plotting library: axis placement and layer checks,
//! interaction ids, cached layers and frame signatures, mouse events and
//! the pointer gesture state machine, indexed meshes, glyph distance fields
//! and the glyph geometry cache, and axis label collisions.

pub mod position;
pub mod event;
pub mod id;
pub mod mesh;
pub mod layer;
pub mod memory;
pub mod chart;
pub mod sdf;
pub mod glyph_cache;
pub mod radii;
pub mod render;
pub mod action;
pub mod interaction;
pub mod tick;

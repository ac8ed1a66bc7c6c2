//! What the plot asks of a renderer, and the plain options of its primitives.

use vstd::prelude::*;

verus! {

/// The preferred rendering backend for a renderer.
#[derive(Debug, Clone, Copy, PartialEq, Eq, Structural)]
pub enum Backend {
    /// GPU-accelerated mesh-based rendering (e.g. wgpu).
    Mesh,
    /// Software path-based rendering (e.g. tiny-skia).
    Path,
}

/// Renderer requirements for plotting.
pub trait Renderer {
    /// Returns the preferred rendering backend for this renderer.
    fn preferred_backend(&self) -> Backend;
}

/// Controls whether a line is extended to the edges of the plot bounds.
#[derive(Debug, Clone, Copy, PartialEq, Eq, Structural)]
pub struct LineExtensions {
    /// Extend the line infinitely beyond its start point.
    pub start: bool,
    /// Extend the line infinitely beyond its end point.
    pub end: bool,
}

/// Something that can be drawn into a plot context `Ctx`.
pub trait Shape<Ctx> {
    /// Renders this shape into the plot context.
    fn render(self, ctx: &mut Ctx);
}

} // verus!

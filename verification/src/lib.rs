//! Compositing core of a small shading engine: colours, the source-over
//! blend, the per-pixel draw pass over a raster, and the rim anchor of a
//! rounded box.

pub mod color;
pub mod raster;
pub mod compose;
pub mod rim;

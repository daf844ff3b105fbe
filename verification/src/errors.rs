//! Error kinds surfaced by the pipeline stages.

use vstd::prelude::*;

verus! {

/// A geometry failure surfaced to the caller: there is no principled local
/// fallback once the shrinkwrap or corner search degenerates.
#[derive(Clone, Copy, Debug, PartialEq, Eq, Structural)]
pub enum GeometryError {
    /// A bounding box collapsed so that a crop or corner-search region is
    /// empty or has zero width or height.
    DegenerateGeometry,
    /// The cropped buffer cannot carry a plausible 21-module pitch: some
    /// module center sample would fall outside the buffer.
    UnsupportedGridSize,
}

} // verus!

//! Plain-handle stand-ins for driver objects. The driver allocates and
//! destroys the real objects; this library only tracks which object a piece
//! of bookkeeping refers to, so an opaque integer handle is all it needs.

use vstd::prelude::*;

verus! {

/// A driver buffer object backing a page of device memory.
#[derive(Debug, Clone, Copy, PartialEq, Eq, Structural)]
pub struct Buffer {
    /// Driver handle.
    pub handle: u64,
}

/// A driver image object together with the shape it was created with.
#[derive(Debug, Clone, Copy, PartialEq, Eq, Structural)]
pub struct Image {
    /// Driver handle.
    pub handle: u64,
    /// Width in texels.
    pub width: u32,
    /// Height in texels.
    pub height: u32,
    /// Array layers (depth of a 2d-array texture).
    pub depth: u32,
    /// Mip levels the image was created with.
    pub mip_map_count: u32,
}

/// A view over an image, as sampled by shaders.
#[derive(Debug, Clone, Copy, PartialEq, Eq, Structural)]
pub struct ImageView {
    /// Driver handle.
    pub handle: u64,
}

/// A fence the driver signals when a submission finishes.
#[derive(Debug, Clone, Copy, PartialEq, Eq, Structural)]
pub struct Fence {
    /// Driver handle.
    pub handle: u64,
}

/// The allocator's single reusable one-shot command buffer.
#[derive(Debug, Clone, Copy, PartialEq, Eq, Structural)]
pub struct CommandBuffers {
    /// Driver handle of the primary command buffer.
    pub handle: u64,
}

} // verus!

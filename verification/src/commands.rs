//! Texture command flags and stream limits shared with the render-command
//! interpreter.

use vstd::prelude::*;

verus! {

/// Bit set in [`TexFlags`] when a texture must not get mip maps.
pub const TEXFLAG_NOMIPMAPS: u32 = 1;

/// The most texture descriptors a descriptor pool of the stream layer holds.
pub const STREAM_DATA_MAX_TEXTURES: u64 = 8192;

/// Flags a texture is created with.
#[derive(Debug, Clone, Copy, PartialEq, Eq, Structural)]
pub struct TexFlags {
    /// The raw flag bits.
    pub bits: u32,
}

impl TexFlags {
    /// No flags set.
    pub fn empty() -> (r: TexFlags)
        ensures
            r.bits == 0,
    {
        TexFlags { bits: 0 }
    }

    /// Whether mip maps are suppressed for this texture.
    pub open spec fn spec_no_mipmaps(self) -> bool {
        self.bits & TEXFLAG_NOMIPMAPS != 0
    }

    /// Whether mip maps are suppressed for this texture.
    pub fn no_mipmaps(&self) -> (r: bool)
        ensures
            r == self.spec_no_mipmaps(),
    {
        self.bits & TEXFLAG_NOMIPMAPS != 0
    }
}

/// What a backend memory allocation is for.
#[derive(Debug, Clone, Copy, PartialEq, Eq, Structural)]
pub enum GraphicsMemoryAllocationType {
    /// A plain 2d RGBA texture of the given shape.
    TextureRgbaU8 {
        /// Width in texels.
        width: usize,
        /// Height in texels.
        height: usize,
        /// Creation flags.
        flags: TexFlags,
    },
    /// A 2d-array RGBA texture of the given shape.
    TextureRgbaU82dArray {
        /// Width in texels.
        width: usize,
        /// Height in texels.
        height: usize,
        /// Array layers.
        depth: usize,
        /// Creation flags.
        flags: TexFlags,
    },
    /// A vertex buffer of the given size.
    VertexBuffer {
        /// Bytes the buffer holds.
        required_size: usize,
    },
    /// A shader-storage buffer of the given size.
    ShaderStorage {
        /// Bytes the buffer holds.
        required_size: usize,
    },
}

/// Where a backend memory allocation's bytes live.
#[derive(Debug, Clone)]
pub enum GraphicsBackendMemoryAllocation {
    /// Driver memory handed out by the allocator: the writable address and
    /// its length.
    Static {
        /// The host-writable address the allocator returned.
        addr: u64,
        /// Usable bytes at that address.
        size: u64,
    },
    /// A plain byte vector, not yet backed by driver memory.
    Vector(Vec<u8>),
}

/// A backend memory allocation: its bytes and what they are for.
#[derive(Debug, Clone)]
pub struct GraphicsBackendMemory {
    /// The bytes.
    pub alloc: GraphicsBackendMemoryAllocation,
    /// The allocation's purpose.
    pub usage: GraphicsMemoryAllocationType,
}

} // verus!

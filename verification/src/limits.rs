//! Device-reported limits that the allocator consults: the largest texture
//! dimension it may accept and the alignments staging and image copies need.

use vstd::prelude::*;

verus! {

/// All alignments the device may report divide this granularity; page base
/// addresses are kept at multiples of it, so aligning an address inside a
/// page also aligns it absolutely.
pub const ALIGN_GRANULARITY: u64 = 65536;

/// The largest texture dimension this model accepts from a device; keeps
/// `width * height * depth * 4` within the model's allocation cap.
pub const MAX_DEVICE_TEXTURE_SIZE: u32 = 16384;

/// Limits reported by the device at construction time.
#[derive(Clone, Copy, Debug)]
pub struct Limits {
    /// Largest width/height/depth a texture may have.
    pub max_texture_size: u32,
    /// Alignment required when flushing non-coherent mapped memory.
    pub non_coherent_mem_alignment: u64,
    /// Alignment the device prefers for buffer-to-image copies.
    pub optimal_image_copy_mem_alignment: u64,
}

impl Limits {
    /// A usable set of limits: alignments are at least one and divide the
    /// granularity (device alignments are powers of two well below it), and
    /// the texture dimension cap is positive and bounded.
    pub open spec fn wf(&self) -> bool {
        &&& 1 <= self.non_coherent_mem_alignment
        &&& ALIGN_GRANULARITY % self.non_coherent_mem_alignment == 0
        &&& 1 <= self.optimal_image_copy_mem_alignment
        &&& ALIGN_GRANULARITY % self.optimal_image_copy_mem_alignment == 0
        &&& 1 <= self.max_texture_size <= MAX_DEVICE_TEXTURE_SIZE
    }

    /// Validates device-reported values; returns `None` exactly when they do
    /// not satisfy [`Limits::wf`].
    pub fn new(
        max_texture_size: u32,
        non_coherent_mem_alignment: u64,
        optimal_image_copy_mem_alignment: u64,
    ) -> (r: Option<Limits>)
        ensures
            match r {
                Some(l) => {
                    &&& l.wf()
                    &&& l.max_texture_size == max_texture_size
                    &&& l.non_coherent_mem_alignment == non_coherent_mem_alignment
                    &&& l.optimal_image_copy_mem_alignment == optimal_image_copy_mem_alignment
                },
                None => !(Limits {
                    max_texture_size,
                    non_coherent_mem_alignment,
                    optimal_image_copy_mem_alignment,
                }).wf(),
            },
    {
        let l = Limits { max_texture_size, non_coherent_mem_alignment, optimal_image_copy_mem_alignment };
        if 1 <= non_coherent_mem_alignment && ALIGN_GRANULARITY % non_coherent_mem_alignment == 0
            && 1 <= optimal_image_copy_mem_alignment
            && ALIGN_GRANULARITY % optimal_image_copy_mem_alignment == 0
            && 1 <= max_texture_size && max_texture_size <= MAX_DEVICE_TEXTURE_SIZE
        {
            Some(l)
        } else {
            None
        }
    }
}

} // verus!

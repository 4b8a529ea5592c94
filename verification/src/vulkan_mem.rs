//! The device-memory service: issues fresh page windows and driver-object
//! handles, and carves blocks out of a [`MemoryCache`], creating a new page
//! when no existing free range fits. Also defines the allocation error
//! taxonomy: running out of memory is recoverable, a missing memory heap or
//! oversized image dimensions are configuration errors.

use vstd::prelude::*;
use crate::limits::ALIGN_GRANULARITY;
use crate::memory::{
    ADDR_SPACE_END, MAX_ALLOC_SIZE, MAX_PAGE_SIZE, MemoryBlock, MemoryCache, MemoryImageBlock,
    align_up_u64, carved_from, carved_in_place, carved_on_new_page, i_contains, i_disjoint,
    lemma_divides_transitive, range_fits, spec_align_up,
};

verus! {

/// Failure to allocate a buffer block.
#[derive(Debug, Clone, Copy, PartialEq, Eq, Structural)]
pub enum BufferAllocationError {
    /// The driver (model: the address space) is exhausted; the caller may
    /// free other allocations and retry.
    OutOfMemory,
    /// No memory heap satisfies the required type bits; a fatal setup error.
    NoMemoryHeap,
}

/// Failure to allocate an image and its memory.
#[derive(Debug, Clone, Copy, PartialEq, Eq, Structural)]
pub enum ImageAllocationError {
    /// The driver is out of memory; recoverable.
    OutOfMemory,
    /// No memory heap satisfies the image's required type bits.
    NoMemoryHeap,
    /// The requested dimensions exceed the device's texture limits.
    ImageDimensionsTooBig,
}

/// Any allocation failure, as surfaced by the allocator facade.
#[derive(Debug, Clone, Copy, PartialEq, Eq, Structural)]
pub enum AllocationError {
    /// The driver is out of memory; recoverable.
    OutOfMemory,
    /// No memory heap satisfies the required type bits.
    NoMemoryHeap,
    /// The requested dimensions exceed the device's texture limits.
    ImageDimensionsTooBig,
}

impl AllocationError {
    /// Widens a buffer-allocation failure.
    pub fn from_buffer_error(e: BufferAllocationError) -> (r: AllocationError)
        ensures
            r == (match e {
                BufferAllocationError::OutOfMemory => AllocationError::OutOfMemory,
                BufferAllocationError::NoMemoryHeap => AllocationError::NoMemoryHeap,
            }),
    {
        match e {
            BufferAllocationError::OutOfMemory => AllocationError::OutOfMemory,
            BufferAllocationError::NoMemoryHeap => AllocationError::NoMemoryHeap,
        }
    }

    /// Widens an image-allocation failure.
    pub fn from_image_error(e: ImageAllocationError) -> (r: AllocationError)
        ensures
            r == (match e {
                ImageAllocationError::OutOfMemory => AllocationError::OutOfMemory,
                ImageAllocationError::NoMemoryHeap => AllocationError::NoMemoryHeap,
                ImageAllocationError::ImageDimensionsTooBig => AllocationError::ImageDimensionsTooBig,
            }),
    {
        match e {
            ImageAllocationError::OutOfMemory => AllocationError::OutOfMemory,
            ImageAllocationError::NoMemoryHeap => AllocationError::NoMemoryHeap,
            ImageAllocationError::ImageDimensionsTooBig => AllocationError::ImageDimensionsTooBig,
        }
    }
}

/// The size of the page created for a request that found no free range:
/// the size class, or the request rounded up to the granularity, whichever
/// is larger.
pub open spec fn page_size_for(size_class: u64, required: u64) -> int {
    let rounded = spec_align_up(required as int, ALIGN_GRANULARITY as int);
    if size_class >= rounded {
        size_class as int
    } else {
        rounded
    }
}

/// The device's memory service. Page windows are issued at ever-increasing
/// granularity-aligned bases, so no two pages ever created share an address,
/// and driver-object handles are issued from a counter.
#[derive(Debug)]
pub struct Memory {
    /// Base of the next page window; a granularity multiple, never decreased.
    pub next_base: u64,
    /// Next driver-object handle to hand out.
    pub next_handle: u64,
    /// Device-reported memory-type bits compatible with sampled images;
    /// zero models a device with no usable image heap.
    pub image_memory_type_bits: u32,
    /// Whether the device blits RGBA images well enough to generate mip
    /// levels on the fly.
    pub optimal_rgba_image_blitting: bool,
}

impl Memory {
    /// The next window base stays aligned and inside the address space.
    pub open spec fn wf(self) -> bool {
        &&& (self.next_base as int) % (ALIGN_GRANULARITY as int) == 0
        &&& ALIGN_GRANULARITY <= self.next_base <= ADDR_SPACE_END
    }

    /// The configuration fields never change after construction.
    pub open spec fn same_config(self, other: Memory) -> bool {
        &&& self.image_memory_type_bits == other.image_memory_type_bits
        &&& self.optimal_rgba_image_blitting == other.optimal_rgba_image_blitting
    }

    /// A fresh memory service for a device with the given configuration.
    pub fn new(image_memory_type_bits: u32, optimal_rgba_image_blitting: bool) -> (r: Memory)
        ensures
            r.wf(),
            r.next_base == ALIGN_GRANULARITY,
            r.image_memory_type_bits == image_memory_type_bits,
            r.optimal_rgba_image_blitting == optimal_rgba_image_blitting,
    {
        Memory {
            next_base: ALIGN_GRANULARITY,
            next_handle: 1,
            image_memory_type_bits,
            optimal_rgba_image_blitting,
        }
    }

    /// Whether a new page of `size` bytes can still be issued.
    pub open spec fn window_fits(self, size: int) -> bool {
        spec_align_up(self.next_base + size, ALIGN_GRANULARITY as int) <= ADDR_SPACE_END
    }

    /// Issues a fresh page window of `size` bytes, or reports exhaustion.
    pub fn new_page_window(&mut self, size: u64) -> (r: Option<u64>)
        requires
            old(self).wf(),
            1 <= size <= MAX_PAGE_SIZE,
        ensures
            final(self).wf(),
            old(self).same_config(*final(self)),
            final(self).next_handle == old(self).next_handle,
            final(self).next_base >= old(self).next_base,
            r is Some <==> old(self).window_fits(size as int),
            final(self).next_base <= old(self).next_base + size + ALIGN_GRANULARITY,
            match r {
                Some(base) => {
                    &&& base == old(self).next_base
                    &&& (base as int) % (ALIGN_GRANULARITY as int) == 0
                    &&& base + size <= final(self).next_base
                    &&& final(self).next_base <= ADDR_SPACE_END
                },
                None => *final(self) == *old(self),
            },
    {
        let end = self.next_base + size;
        let aligned = align_up_u64(end, ALIGN_GRANULARITY);
        if aligned <= ADDR_SPACE_END {
            let base = self.next_base;
            self.next_base = aligned;
            Some(base)
        } else {
            None
        }
    }

    /// Issues a driver-object handle; handles are only a bookkeeping aid, so
    /// the counter saturates rather than wraps.
    pub fn fresh_handle(&mut self) -> (r: u64)
        requires
            old(self).wf(),
        ensures
            final(self).wf(),
            old(self).same_config(*final(self)),
            final(self).next_base == old(self).next_base,
    {
        let h = self.next_handle;
        if self.next_handle < u64::MAX {
            self.next_handle = self.next_handle + 1;
        }
        h
    }

    /// Carves a block of `required_size` bytes at `required_alignment` out
    /// of `cache`, creating a page of at least `size_class` bytes when no
    /// existing free range fits. Fails with `OutOfMemory` exactly when
    /// neither is possible.
    pub fn get_buffer_block_impl(
        &mut self,
        cache: &mut MemoryCache,
        size_class: u64,
        required_size: u64,
        required_alignment: u64,
    ) -> (r: Result<MemoryBlock, BufferAllocationError>)
        requires
            old(self).wf(),
            old(cache).pages_wf(),
            old(cache).pages_disjoint(),
            old(cache).below(old(self).next_base as int),
            1 <= required_size <= MAX_ALLOC_SIZE,
            1 <= required_alignment,
            (ALIGN_GRANULARITY as int) % (required_alignment as int) == 0,
            1 <= size_class <= MAX_ALLOC_SIZE,
        ensures
            final(self).wf(),
            old(self).same_config(*final(self)),
            final(self).next_base >= old(self).next_base,
            final(self).next_base <= old(self).next_base + page_size_for(size_class, required_size)
                + ALIGN_GRANULARITY,
            final(cache).pages_wf(),
            final(cache).pages_disjoint(),
            final(cache).below(final(self).next_base as int),
            final(cache).host_visible == old(cache).host_visible,
            r is Ok <==> (old(cache).has_fit(required_size, required_alignment) || old(
                self,
            ).window_fits(page_size_for(size_class, required_size))),
            match r {
                Ok(b) => {
                    &&& b.wf()
                    &&& b.host_visible == old(cache).host_visible
                    &&& b.usable_size() == required_size
                    &&& b.addr_spec() % (required_alignment as int) == 0
                    &&& acquired_frame(*old(cache), *final(cache), old(self).next_base as int, b)
                    &&& carved_from(*old(cache), *final(cache), b)
                    &&& exists|j: int|
                        0 <= j < final(cache).pages@.len() && (#[trigger] final(cache).pages@[j]).base
                            == b.page_base && final(cache).pages@[j].size == b.page_size
                    &&& final(cache).pages@.len() == old(cache).pages@.len() + (
                    if old(cache).has_fit(required_size, required_alignment) {
                        0int
                    } else {
                        1int
                    })
                    // a created page is sized to the larger of the size
                    // class and the request rounded up to the granularity
                    &&& (final(cache).pages@.len() > old(cache).pages@.len() ==> {
                        &&& final(cache).pages@.last().base == old(self).next_base
                        &&& final(cache).pages@.last().size == page_size_for(
                            size_class,
                            required_size,
                        )
                    })
                },
                Err(e) => {
                    &&& e == BufferAllocationError::OutOfMemory
                    &&& *final(cache) == *old(cache)
                    &&& *final(self) == *old(self)
                },
            },
    {
        proof {
            // the alignment divides the granularity, so it cannot exceed it
            if required_alignment > ALIGN_GRANULARITY {
                vstd::arithmetic::div_mod::lemma_mod_bound(
                    ALIGN_GRANULARITY as int,
                    required_alignment as int,
                );
                vstd::arithmetic::div_mod::lemma_small_mod(
                    ALIGN_GRANULARITY as nat,
                    required_alignment as nat,
                );
            }
        }
        match cache.try_carve(required_size, required_alignment) {
            Some(b) => {
                proof {
                    let j0 = choose|j: int|
                        0 <= j < old(cache).pages@.len() && (#[trigger] old(cache).pages@[j]).base
                            == b.page_base && old(cache).pages@[j].size == b.page_size;
                    assert(cache.pages@[j0].base == b.page_base && cache.pages@[j0].size
                        == b.page_size);
                }
                Ok(b)
            },
            None => {
                let rounded = align_up_u64(required_size, ALIGN_GRANULARITY);
                let psize = if size_class >= rounded {
                    size_class
                } else {
                    rounded
                };
                match self.new_page_window(psize) {
                    Some(base) => {
                        cache.add_page(base, psize);
                        let j = cache.pages.len() - 1;
                        proof {
                            // the fresh page's single free range fits the request:
                            // its base is granularity-aligned, and the alignment
                            // divides the granularity
                            lemma_divides_transitive(
                                base as int,
                                required_alignment as int,
                                ALIGN_GRANULARITY as int,
                            );
                            assert(spec_align_up(base as int, required_alignment as int) == base)
                                by {
                                vstd::arithmetic::div_mod::lemma_fundamental_div_mod(
                                    base as int,
                                    required_alignment as int,
                                );
                                assert(base as int == (base as int / required_alignment as int)
                                    * required_alignment);
                                vstd::arithmetic::div_mod::lemma_fundamental_div_mod_converse_div(
                                    base as int + required_alignment - 1,
                                    required_alignment as int,
                                    base as int / required_alignment as int,
                                    required_alignment as int - 1,
                                );
                            }
                            assert(range_fits((base, psize), required_size, required_alignment));
                            assert(cache.pages@[j as int].has_fit(
                                required_size,
                                required_alignment,
                            ));
                        }
                        let carve_res = cache.pages[j].carve(required_size, required_alignment);
                        match carve_res {
                            Some((offset, pad)) => {
                                let b = MemoryBlock {
                                    page_base: base,
                                    page_size: psize,
                                    offset,
                                    size: pad + required_size,
                                    pad,
                                    host_visible: cache.host_visible,
                                };
                                proof {
                                    assert(cache.pages@[j as int].base == b.page_base
                                        && cache.pages@[j as int].size == b.page_size);
                                    // the block starts at the fresh page's base with no
                                    // padding, and the page's remainder is its free list
                                    assert(pad == 0) by {
                                        vstd::arithmetic::div_mod::lemma_add_mod_noop(
                                            base as int,
                                            pad as int,
                                            required_alignment as int,
                                        );
                                        vstd::arithmetic::div_mod::lemma_small_mod(
                                            pad as nat,
                                            required_alignment as nat,
                                        );
                                    }
                                    if b.size == b.page_size {
                                        assert(cache.pages@[j as int].free@
                                            =~= Seq::<(u64, u64)>::empty());
                                    } else {
                                        assert(cache.pages@[j as int].free@ =~= seq![
                                            (
                                                ((b.offset + b.size) as u64),
                                                ((b.page_size - b.size) as u64),
                                            ),
                                        ]);
                                    }
                                    assert(carved_on_new_page(*old(cache), *final(cache), b));
                                }
                                Ok(b)
                            },
                            None => {
                                // the fresh page always fits; this branch is
                                // unreachable
                                proof {
                                    assert(false);
                                }
                                Err(BufferAllocationError::OutOfMemory)
                            },
                        }
                    },
                    None => Err(BufferAllocationError::OutOfMemory),
                }
            },
        }
    }

    /// Carves device-local memory for an image out of `cache`.
    pub fn get_image_memory_block_impl(
        &mut self,
        cache: &mut MemoryCache,
        size_class: u64,
        required_size: u64,
        required_alignment: u64,
    ) -> (r: Result<MemoryImageBlock, BufferAllocationError>)
        requires
            old(self).wf(),
            old(cache).pages_wf(),
            old(cache).pages_disjoint(),
            old(cache).below(old(self).next_base as int),
            1 <= required_size <= MAX_ALLOC_SIZE,
            1 <= required_alignment,
            (ALIGN_GRANULARITY as int) % (required_alignment as int) == 0,
            1 <= size_class <= MAX_ALLOC_SIZE,
        ensures
            final(self).wf(),
            old(self).same_config(*final(self)),
            final(self).next_base >= old(self).next_base,
            final(self).next_base <= old(self).next_base + page_size_for(size_class, required_size)
                + ALIGN_GRANULARITY,
            final(cache).pages_wf(),
            final(cache).pages_disjoint(),
            final(cache).below(final(self).next_base as int),
            final(cache).host_visible == old(cache).host_visible,
            r is Ok <==> (old(cache).has_fit(required_size, required_alignment) || old(
                self,
            ).window_fits(page_size_for(size_class, required_size))),
            match r {
                Ok(ib) => {
                    &&& ib.base.wf()
                    &&& ib.base.host_visible == old(cache).host_visible
                    &&& ib.base.usable_size() == required_size
                    &&& ib.base.addr_spec() % (required_alignment as int) == 0
                    &&& acquired_frame(
                        *old(cache),
                        *final(cache),
                        old(self).next_base as int,
                        ib.base,
                    )
                    &&& carved_from(*old(cache), *final(cache), ib.base)
                    &&& exists|j: int|
                        0 <= j < final(cache).pages@.len() && (#[trigger] final(cache).pages@[j]).base
                            == ib.base.page_base && final(cache).pages@[j].size
                            == ib.base.page_size
                    &&& final(cache).pages@.len() == old(cache).pages@.len() + (
                    if old(cache).has_fit(required_size, required_alignment) {
                        0int
                    } else {
                        1int
                    })
                    &&& (final(cache).pages@.len() > old(cache).pages@.len() ==> {
                        &&& final(cache).pages@.last().base == old(self).next_base
                        &&& final(cache).pages@.last().size == page_size_for(
                            size_class,
                            required_size,
                        )
                    })
                },
                Err(e) => {
                    &&& e == BufferAllocationError::OutOfMemory
                    &&& *final(cache) == *old(cache)
                    &&& *final(self) == *old(self)
                },
            },
    {
        match self.get_buffer_block_impl(cache, size_class, required_size, required_alignment) {
            Ok(b) => Ok(MemoryImageBlock { base: b }),
            Err(e) => Err(e),
        }
    }
}

/// How an acquisition changed a cache, seen from outside: old page windows
/// are untouched (at most one new page appears, at or above `lo`), the block
/// came from an old free range or from the fresh window, and what remains
/// free never overlaps the block.
pub open spec fn acquired_frame(c0: MemoryCache, c1: MemoryCache, lo: int, b: MemoryBlock) -> bool {
    &&& c0.pages@.len() <= c1.pages@.len() <= c0.pages@.len() + 1
    &&& forall|j: int|
        0 <= j < c0.pages@.len() ==> (#[trigger] c1.pages@[j]).base == c0.pages@[j].base
            && c1.pages@[j].size == c0.pages@[j].size
    &&& (c1.pages@.len() > c0.pages@.len() ==> c1.pages@[c0.pages@.len() as int].base as int >= lo)
    &&& ({
        ||| exists|j: int, k: int|
            0 <= j < c0.pages@.len() && 0 <= k < c0.pages@[j].free@.len() && i_contains(
                (#[trigger] c0.pages@[j].free@[k]).0 as int,
                c0.pages@[j].free@[k].1 as int,
                b.offset as int,
                b.size as int,
            )
        ||| b.offset as int >= lo
    })
    &&& forall|j: int, m: int|
        0 <= j < c1.pages@.len() && 0 <= m < c1.pages@[j].free@.len() ==> {
            &&& i_disjoint(
                (#[trigger] c1.pages@[j].free@[m]).0 as int,
                c1.pages@[j].free@[m].1 as int,
                b.offset as int,
                b.size as int,
            )
            &&& (j < c0.pages@.len() ==> exists|k: int|
                0 <= k < c0.pages@[j].free@.len() && i_contains(
                    (#[trigger] c0.pages@[j].free@[k]).0 as int,
                    c0.pages@[j].free@[k].1 as int,
                    c1.pages@[j].free@[m].0 as int,
                    c1.pages@[j].free@[m].1 as int,
                ))
            &&& (j >= c0.pages@.len() ==> c1.pages@[j].free@[m].0 as int >= lo)
        }
}

} // verus!

//! The allocator facade: carves staging and device blocks for buffers,
//! shader storages and images, registers every handed-out host-writable
//! address in a per-kind pointer registry, runs the monotonic flush state
//! machine, and grows descriptor pools on demand.
//!
//! The central invariant, kept by every operation: the blocks of all
//! registered entries and the free ranges of all page caches are pairwise
//! disjoint address ranges, so no two live entries ever share a pointer and
//! no free-list insertion can corrupt a live allocation.

use std::collections::HashMap;
use vstd::prelude::*;
use crate::commands::{GraphicsBackendMemory, GraphicsBackendMemoryAllocation, GraphicsMemoryAllocationType, TexFlags};
use crate::descriptors::{
    DescriptorPool, DescriptorSetLayout, DescriptorSets, sum_set_counts, lemma_sum_set_counts_push,
};
use crate::device_objects::{Buffer, CommandBuffers, Fence, Image};
use crate::limits::{ALIGN_GRANULARITY, Limits};
use crate::memory::{MAX_ALLOC_SIZE, MemoryBlock, MemoryCache, MemoryImageBlock, i_disjoint};
use crate::vulkan_mem::{
    AllocationError, BufferAllocationError, ImageAllocationError, Memory, acquired_frame,
    page_size_for,
};
use crate::vulkan_types::{DescriptorPoolType, DeviceDescriptorPools};

verus! {

broadcast use vstd::std_specs::hash::group_hash_axioms;

/// Size class of buffer pages: staging, vertex and shader-storage caches
/// grow in pages of this many bytes.
pub const BUFFER_PAGE_SIZE: u64 = 8 * 1024 * 1024;

/// Size class of image pages: a good approximation of a 1024x1024 RGBA
/// image with mip maps.
pub const IMG_SIZE1024X1024: u64 = (1024 * 1024 * 4) * 2;

/// How far an entry's upload has progressed. The order is strict: an entry
/// never moves back.
#[derive(Debug, Clone, Copy, PartialEq, Eq, Structural)]
pub enum FlushType {
    /// Nothing flushed yet; the CPU may still be writing.
    NotFlushed,
    /// The staging range was made visible to the driver; the device copy is
    /// still pending.
    StagingBufferFlushed,
    /// The staging range was flushed and the device copy submitted.
    FullyCreated,
}

/// The position of a flush state in the one-way `NotFlushed ->
/// StagingBufferFlushed -> FullyCreated` order.
pub open spec fn flush_rank(f: FlushType) -> int {
    match f {
        FlushType::NotFlushed => 0,
        FlushType::StagingBufferFlushed => 1,
        FlushType::FullyCreated => 2,
    }
}

/// A registered buffer allocation: its host-visible staging block, the
/// device-local block the data is copied into, and the upload state.
#[derive(Debug, Clone, Copy)]
pub struct VulkanAllocatorBufferCacheEntry {
    /// The host-visible block the caller writes into.
    pub staging: MemoryBlock,
    /// The device-local destination block.
    pub device: MemoryBlock,
    /// How far the upload has progressed.
    pub is_flushed: FlushType,
}

impl VulkanAllocatorBufferCacheEntry {
    /// Staging is host visible, the device block is not, and both hold the
    /// same number of usable bytes.
    pub open spec fn wf(self) -> bool {
        &&& self.staging.wf()
        &&& self.device.wf()
        &&& self.staging.host_visible
        &&& !self.device.host_visible
        &&& self.staging.usable_size() == self.device.usable_size()
    }
}

/// A registered shader-storage allocation: a buffer entry plus the
/// descriptor set bound at its first full flush.
#[derive(Debug, Clone)]
pub struct VulkanAllocatorShaderStorageCacheEntry {
    /// The underlying staging/device pair.
    pub base: VulkanAllocatorBufferCacheEntry,
    /// The descriptor set bound to the device block; set once, by the first
    /// full flush.
    pub descriptor_sets: Option<DescriptorSets>,
}

/// The shape an image allocation was requested with.
#[derive(Debug, Clone, Copy)]
pub struct VulkanAllocatorImageCacheEntryData {
    /// Width in texels.
    pub width: usize,
    /// Height in texels.
    pub height: usize,
    /// Layers of a 2d-array texture; 1 for plain 2d.
    pub depth: usize,
    /// Whether the entry is a 2d-array ("3d") texture.
    pub is_3d_tex: bool,
    /// Creation flags.
    pub flags: TexFlags,
    /// Mip levels the device image was created with.
    pub mip_map_count: usize,
}

/// A registered image allocation: staging block, device image and its
/// memory, the requested shape, and the upload state.
#[derive(Debug, Clone, Copy)]
pub struct VulkanAllocatorImageCacheEntry {
    /// The host-visible block the caller writes texels into.
    pub staging: MemoryBlock,
    /// The device image the texels are copied into.
    pub img: Image,
    /// The device-local memory backing the image.
    pub img_mem: MemoryImageBlock,
    /// The requested shape.
    pub data: VulkanAllocatorImageCacheEntryData,
    /// How far the upload has progressed.
    pub is_flushed: FlushType,
}

/// A writable range of driver memory, handed to the backend after its
/// address was checked to belong to a registered allocation.
#[derive(Debug, Clone, Copy)]
pub struct VulkanDeviceInternalMemory {
    /// The host-writable address.
    pub addr: u64,
    /// Usable bytes at that address.
    pub size: u64,
}

/// The three pointer registries, one per allocation kind. A host-writable
/// address is the sole identifier of an entry; lookups probe the buffer,
/// then the shader-storage, then the image registry.
#[derive(Debug)]
pub struct VulkanAllocatorPointerWork {
    /// Buffer allocations by their staging address.
    pub mapped_memory_cache: HashMap<u64, VulkanAllocatorBufferCacheEntry>,
    /// Shader-storage allocations by their staging address.
    pub mapped_memory_cache_shader_storage: HashMap<u64, VulkanAllocatorShaderStorageCacheEntry>,
    /// Image allocations by their staging address.
    pub mapped_memory_cache_image: HashMap<u64, VulkanAllocatorImageCacheEntry>,
}

/// State only the allocator's own submissions touch: its reusable one-shot
/// command buffer.
#[derive(Debug, Clone, Copy)]
pub struct VulkanAllocatorLocalData {
    /// The command buffer full flushes record into.
    pub command_buffers: CommandBuffers,
}

} // verus!

verus! {

/// The allocator: page caches per memory kind, the pointer registries, the
/// transfer engine's fence and command buffer, and the shader-storage
/// descriptor pools. Designed to sit behind one lock and be driven from
/// worker threads that prepare uploads.
#[derive(Debug)]
pub struct VulkanAllocator {
    /// The device's memory service.
    pub mem: Memory,
    /// Host-visible pages for buffer and shader-storage staging.
    pub staging_buffer_cache: MemoryCache,
    /// Host-visible pages for image staging.
    pub staging_buffer_cache_image: MemoryCache,
    /// Device-local pages for vertex buffers.
    pub vertex_buffer_cache: MemoryCache,
    /// Device-local pages for shader-storage buffers.
    pub shader_storage_cache: MemoryCache,
    /// Device-local image pages, one cache per compatible memory-type
    /// bitmask, created lazily on first use of a bitmask.
    pub image_buffer_caches: Vec<(u32, MemoryCache)>,
    /// Device-reported limits.
    pub limits: Limits,
    /// The pointer registries.
    pub ptr_work: VulkanAllocatorPointerWork,
    /// The transfer engine's command buffer.
    pub local: VulkanAllocatorLocalData,
    /// The transfer engine's fence, reset before every submission.
    pub fence: Fence,
    /// Descriptor pools for shader-storage sets.
    pub shader_storage_descr_pools: DeviceDescriptorPools,
    /// Layout of the shader-storage sets bound at full flushes.
    pub vertex_shader_storage_descriptor_set_layout: DescriptorSetLayout,
}

/// Registry kind tags, in probe order.
pub open spec fn kind_buffer() -> int {
    0
}

/// Registry kind tag of shader-storage entries.
pub open spec fn kind_shader_storage() -> int {
    1
}

/// Registry kind tag of image entries.
pub open spec fn kind_image() -> int {
    2
}

impl VulkanAllocator {
    /// How many page caches the allocator holds: the four fixed ones plus
    /// one per image memory-type bitmask.
    pub open spec fn n_caches(self) -> int {
        4 + self.image_buffer_caches@.len() as int
    }

    /// The page caches under one index space: 0 buffer staging, 1 image
    /// staging, 2 vertex, 3 shader storage, then the image caches.
    pub open spec fn cache_at(self, i: int) -> MemoryCache {
        if i == 0 {
            self.staging_buffer_cache
        } else if i == 1 {
            self.staging_buffer_cache_image
        } else if i == 2 {
            self.vertex_buffer_cache
        } else if i == 3 {
            self.shader_storage_cache
        } else {
            self.image_buffer_caches@[i - 4].1
        }
    }

    /// Whether registry `t` holds an entry under key `k` (with `s` picking
    /// one of the entry's two blocks: 0 staging, 1 device).
    pub closed spec fn is_live(self, t: int, k: u64, s: int) -> bool {
        &&& 0 <= s < 2
        &&& {
            ||| (t == kind_buffer() && self.ptr_work.mapped_memory_cache@.contains_key(k))
            ||| (t == kind_shader_storage()
                && self.ptr_work.mapped_memory_cache_shader_storage@.contains_key(k))
            ||| (t == kind_image() && self.ptr_work.mapped_memory_cache_image@.contains_key(k))
        }
    }

    /// Block `s` (0 staging, 1 device) of the entry registry `t` holds
    /// under key `k`.
    pub closed spec fn live_block(self, t: int, k: u64, s: int) -> MemoryBlock {
        if t == kind_buffer() {
            let e = self.ptr_work.mapped_memory_cache@[k];
            if s == 0 {
                e.staging
            } else {
                e.device
            }
        } else if t == kind_shader_storage() {
            let e = self.ptr_work.mapped_memory_cache_shader_storage@[k];
            if s == 0 {
                e.base.staging
            } else {
                e.base.device
            }
        } else {
            let e = self.ptr_work.mapped_memory_cache_image@[k];
            if s == 0 {
                e.staging
            } else {
                e.img_mem.base
            }
        }
    }

    /// The range `[start, start + len)` overlaps no free range of any cache.
    pub open spec fn free_clear(self, start: int, len: int) -> bool {
        forall|i: int, j: int, m: int|
            0 <= i < self.n_caches() && 0 <= j < self.cache_at(i).pages@.len() && 0 <= m
                < self.cache_at(i).pages@[j].free@.len() ==> i_disjoint(
                (#[trigger] self.cache_at(i).pages@[j].free@[m]).0 as int,
                self.cache_at(i).pages@[j].free@[m].1 as int,
                start,
                len,
            )
    }

    /// Every current page that carries `b`'s page base has `b`'s recorded
    /// window size.
    pub open spec fn page_size_agrees(self, b: MemoryBlock) -> bool {
        forall|i: int, j: int|
            0 <= i < self.n_caches() && 0 <= j < self.cache_at(i).pages@.len() && (
            #[trigger] self.cache_at(i).pages@[j]).base == b.page_base ==> self.cache_at(
                i,
            ).pages@[j].size == b.page_size
    }

    /// A live block: well formed, inside the issued address space, clear of
    /// every free range, and consistent with its page's window.
    pub open spec fn block_ok(self, b: MemoryBlock) -> bool {
        &&& b.wf()
        &&& b.page_base + b.page_size <= self.mem.next_base
        &&& self.free_clear(b.offset as int, b.size as int)
        &&& self.page_size_agrees(b)
    }

    /// The page caches: well formed, below the issued address space, with
    /// the right host visibility, and with pairwise disjoint page windows
    /// across all caches.
    pub open spec fn caches_wf(self) -> bool {
        &&& forall|i: int| 0 <= i < self.n_caches() ==> (#[trigger] self.cache_at(i)).pages_wf()
        &&& forall|i: int|
            0 <= i < self.n_caches() ==> (#[trigger] self.cache_at(i)).below(
                self.mem.next_base as int,
            )
        &&& self.staging_buffer_cache.host_visible
        &&& self.staging_buffer_cache_image.host_visible
        &&& !self.vertex_buffer_cache.host_visible
        &&& !self.shader_storage_cache.host_visible
        &&& forall|i: int| 4 <= i < self.n_caches() ==> !(#[trigger] self.cache_at(i)).host_visible
        &&& forall|i1: int, j1: int, i2: int, j2: int|
            0 <= i1 < self.n_caches() && 0 <= j1 < self.cache_at(i1).pages@.len() && 0 <= i2
                < self.n_caches() && 0 <= j2 < self.cache_at(i2).pages@.len() && (i1 != i2 || j1
                != j2) ==> i_disjoint(
                (#[trigger] self.cache_at(i1).pages@[j1]).base as int,
                self.cache_at(i1).pages@[j1].size as int,
                (#[trigger] self.cache_at(i2).pages@[j2]).base as int,
                self.cache_at(i2).pages@[j2].size as int,
            )
    }

    /// The registries: every block of every entry is ok and on the right
    /// side of host visibility, every key is its entry's staging address,
    /// and the blocks of any two distinct entries (and the two blocks of
    /// one entry) never overlap.
    pub closed spec fn entries_wf(self) -> bool {
        &&& forall|t: int, k: u64, s: int|
            self.is_live(t, k, s) ==> self.block_ok(#[trigger] self.live_block(t, k, s))
        &&& forall|t: int, k: u64, s: int|
            self.is_live(t, k, s) ==> (#[trigger] self.live_block(t, k, s)).host_visible == (s
                == 0)
        &&& forall|t: int, k: u64|
            self.is_live(t, k, 0) ==> (#[trigger] self.live_block(t, k, 0)).addr_spec() == k
        &&& forall|t1: int, k1: u64, s1: int, t2: int, k2: u64, s2: int|
            self.is_live(t1, k1, s1) && self.is_live(t2, k2, s2) && (t1 != t2 || k1 != k2 || s1
                != s2) ==> i_disjoint(
                (#[trigger] self.live_block(t1, k1, s1)).offset as int,
                self.live_block(t1, k1, s1).size as int,
                (#[trigger] self.live_block(t2, k2, s2)).offset as int,
                self.live_block(t2, k2, s2).size as int,
            )
    }

    /// Shape facts about the stored entries themselves.
    pub closed spec fn entry_shapes_wf(self) -> bool {
        &&& forall|k: u64|
            self.ptr_work.mapped_memory_cache@.contains_key(k) ==> (
            #[trigger] self.ptr_work.mapped_memory_cache@[k]).wf()
        &&& forall|k: u64|
            self.ptr_work.mapped_memory_cache_shader_storage@.contains_key(k) ==> (
            #[trigger] self.ptr_work.mapped_memory_cache_shader_storage@[k]).base.wf()
        &&& forall|k: u64|
            self.ptr_work.mapped_memory_cache_image@.contains_key(k) ==> {
                let e = #[trigger] self.ptr_work.mapped_memory_cache_image@[k];
                &&& e.staging.wf()
                &&& e.img_mem.base.wf()
                &&& e.staging.host_visible
                &&& !e.img_mem.base.host_visible
                &&& 1 <= e.data.width
                &&& 1 <= e.data.height
                &&& 1 <= e.data.depth
                &&& 1 <= e.data.mip_map_count
            }
    }

    /// Every entry's blocks still have their pages: staging and device
    /// blocks of buffer and shader-storage entries live in caches whose
    /// pages are never dropped, as does an image entry's staging block (its
    /// device memory alone can be purged away).
    pub closed spec fn residence_wf(self) -> bool {
        &&& forall|k: u64|
            self.ptr_work.mapped_memory_cache@.contains_key(k) ==> crate::memory::page_resident(
                self.staging_buffer_cache,
                (#[trigger] self.ptr_work.mapped_memory_cache@[k]).staging,
            ) && crate::memory::page_resident(
                self.vertex_buffer_cache,
                self.ptr_work.mapped_memory_cache@[k].device,
            )
        &&& forall|k: u64|
            self.ptr_work.mapped_memory_cache_shader_storage@.contains_key(k)
                ==> crate::memory::page_resident(
                self.staging_buffer_cache,
                (#[trigger] self.ptr_work.mapped_memory_cache_shader_storage@[k]).base.staging,
            ) && crate::memory::page_resident(
                self.shader_storage_cache,
                self.ptr_work.mapped_memory_cache_shader_storage@[k].base.device,
            )
        &&& forall|k: u64|
            self.ptr_work.mapped_memory_cache_image@.contains_key(k)
                ==> crate::memory::page_resident(
                self.staging_buffer_cache_image,
                (#[trigger] self.ptr_work.mapped_memory_cache_image@[k]).staging,
            )
    }

    /// The allocator's invariant, established by [`VulkanAllocator::new`]
    /// and kept by every operation.
    pub closed spec fn wf(self) -> bool {
        &&& self.mem.wf()
        &&& self.limits.wf()
        &&& self.caches_wf()
        &&& self.entries_wf()
        &&& self.entry_shapes_wf()
        &&& self.residence_wf()
        &&& self.shader_storage_descr_pools.wf()
    }

    /// Whether a buffer allocation is registered under address `p`.
    pub closed spec fn spec_mem_block_exists(self, p: u64) -> bool {
        self.ptr_work.mapped_memory_cache@.contains_key(p)
    }

    /// Whether a shader-storage allocation is registered under address `p`.
    pub closed spec fn spec_mem_block_shader_storage_exists(self, p: u64) -> bool {
        self.ptr_work.mapped_memory_cache_shader_storage@.contains_key(p)
    }

    /// Whether an image allocation is registered under address `p`.
    pub closed spec fn spec_mem_block_image_exists(self, p: u64) -> bool {
        self.ptr_work.mapped_memory_cache_image@.contains_key(p)
    }

    /// A fresh allocator over a device's memory service and limits.
    pub fn new(
        mem: Memory,
        limits: Limits,
        vertex_shader_storage_descriptor_set_layout: DescriptorSetLayout,
    ) -> (r: VulkanAllocator)
        requires
            mem.wf(),
            limits.wf(),
        ensures
            r.wf(),
            r.limits == limits,
            r.mem.next_base == mem.next_base,
            r.mem.image_memory_type_bits == mem.image_memory_type_bits,
            r.mem.optimal_rgba_image_blitting == mem.optimal_rgba_image_blitting,
            forall|p: u64| !r.spec_mem_block_exists(p),
            forall|p: u64| !r.spec_mem_block_shader_storage_exists(p),
            forall|p: u64| !r.spec_mem_block_image_exists(p),
            r.staging_buffer_cache.pages@.len() == 0,
            r.staging_buffer_cache_image.pages@.len() == 0,
            r.vertex_buffer_cache.pages@.len() == 0,
            r.shader_storage_cache.pages@.len() == 0,
            r.image_buffer_caches@.len() == 0,
            r.shader_storage_descr_pools.pools@.len() == 0,
            r.shader_storage_descr_pools.default_alloc_size == 128,
            r.shader_storage_descr_pools.pool_ty == DescriptorPoolType::ShaderStorage,
            r.vertex_shader_storage_descriptor_set_layout
                == vertex_shader_storage_descriptor_set_layout,
    {
        let mut mem = mem;
        let fence = Fence { handle: mem.fresh_handle() };
        let command_buffers = CommandBuffers { handle: mem.fresh_handle() };
        let r = VulkanAllocator {
            shader_storage_descr_pools: DeviceDescriptorPools::new(
                128,
                DescriptorPoolType::ShaderStorage,
            ),
            vertex_shader_storage_descriptor_set_layout,
            mem,
            staging_buffer_cache: MemoryCache::new(true),
            staging_buffer_cache_image: MemoryCache::new(true),
            image_buffer_caches: Vec::new(),
            vertex_buffer_cache: MemoryCache::new(false),
            shader_storage_cache: MemoryCache::new(false),
            limits,
            ptr_work: VulkanAllocatorPointerWork {
                mapped_memory_cache: HashMap::new(),
                mapped_memory_cache_shader_storage: HashMap::new(),
                mapped_memory_cache_image: HashMap::new(),
            },
            local: VulkanAllocatorLocalData { command_buffers },
            fence,
        };
        proof {
            assert forall|i: int| 0 <= i < r.n_caches() implies (#[trigger] r.cache_at(
                i,
            )).pages_wf() && r.cache_at(i).below(r.mem.next_base as int) by {
                assert(r.cache_at(i).pages@.len() == 0);
            }
        }
        r
    }
}

} // verus!

verus! {

/// Every page of `c` carrying the block's base holds the block's exact
/// carved range in its free list again.
pub open spec fn blocks_range_freed(c: MemoryCache, b: MemoryBlock) -> bool {
    forall|j: int|
        0 <= j < c.pages@.len() && (#[trigger] c.pages@[j]).base == b.page_base ==> exists|m: int|
            0 <= m < c.pages@[j].free@.len() && (#[trigger] c.pages@[j].free@[m]) == (
            b.offset,
            b.size,
        )
}

/// `s1` equals `s0` except for page cache `ia` and the memory service.
pub open spec fn same_but_cache(s0: VulkanAllocator, s1: VulkanAllocator, ia: int) -> bool {
    &&& s1.n_caches() == s0.n_caches()
    &&& forall|i: int| 0 <= i < s0.n_caches() && i != ia ==> s1.cache_at(i) == s0.cache_at(i)
    &&& s1.ptr_work.mapped_memory_cache@ == s0.ptr_work.mapped_memory_cache@
    &&& s1.ptr_work.mapped_memory_cache_shader_storage@
        == s0.ptr_work.mapped_memory_cache_shader_storage@
    &&& s1.ptr_work.mapped_memory_cache_image@ == s0.ptr_work.mapped_memory_cache_image@
    &&& s1.limits == s0.limits
    &&& s1.shader_storage_descr_pools == s0.shader_storage_descr_pools
}

impl VulkanAllocator {
    /// Carving a block out of one cache keeps the allocator's invariant,
    /// leaves every previously ok block ok, and yields a block disjoint
    /// from all of them.
    proof fn lemma_acquire_preserves(s0: VulkanAllocator, s1: VulkanAllocator, ia: int, b: MemoryBlock)
        requires
            s0.wf(),
            0 <= ia < s0.n_caches(),
            same_but_cache(s0, s1, ia),
            s1.mem.wf(),
            s1.mem.next_base >= s0.mem.next_base,
            acquired_frame(s0.cache_at(ia), s1.cache_at(ia), s0.mem.next_base as int, b),
            s1.cache_at(ia).pages_wf(),
            s1.cache_at(ia).below(s1.mem.next_base as int),
            s1.cache_at(ia).host_visible == s0.cache_at(ia).host_visible,
            b.wf(),
            exists|j: int|
                0 <= j < s1.cache_at(ia).pages@.len() && (#[trigger] s1.cache_at(ia).pages@[j]).base
                    == b.page_base && s1.cache_at(ia).pages@[j].size == b.page_size,
        ensures
            s1.wf(),
            s1.block_ok(b),
            forall|bb: MemoryBlock|
                #[trigger] s0.block_ok(bb) ==> s1.block_ok(bb) && i_disjoint(
                    bb.offset as int,
                    bb.size as int,
                    b.offset as int,
                    b.size as int,
                ),
    {
        let n = s0.n_caches();
        let lo = s0.mem.next_base as int;
        let old_len = s0.cache_at(ia).pages@.len() as int;
        // window bookkeeping: positions below old_len keep their windows; at
        // most one page is appended, starting at or above lo
        assert forall|i: int, j: int|
            0 <= i < n && 0 <= j < s1.cache_at(i).pages@.len() && !(i == ia && j >= old_len)
            implies (#[trigger] s1.cache_at(i).pages@[j]).base == s0.cache_at(i).pages@[j].base
            && s1.cache_at(i).pages@[j].size == s0.cache_at(i).pages@[j].size && 0 <= j < s0.cache_at(
            i,
        ).pages@.len() by {
            if i != ia {
                assert(s1.cache_at(i) == s0.cache_at(i));
            }
        }
        // every old window ends at or below lo
        assert forall|i: int, j: int|
            0 <= i < n && 0 <= j < s0.cache_at(i).pages@.len() implies (
        #[trigger] s0.cache_at(i).pages@[j]).base + s0.cache_at(i).pages@[j].size <= lo by {
            assert(s0.cache_at(i).below(lo));
        }
        // caches of s1 are well formed and below the new bound
        assert forall|i: int| 0 <= i < n implies (#[trigger] s1.cache_at(i)).pages_wf()
            && s1.cache_at(i).below(s1.mem.next_base as int) by {
            if i != ia {
                assert(s1.cache_at(i) == s0.cache_at(i));
                assert(s0.cache_at(i).below(lo));
            }
        }
        // pairwise window disjointness
        assert forall|i1: int, j1: int, i2: int, j2: int|
            0 <= i1 < n && 0 <= j1 < s1.cache_at(i1).pages@.len() && 0 <= i2 < n && 0 <= j2
                < s1.cache_at(i2).pages@.len() && (i1 != i2 || j1 != j2) implies i_disjoint(
            (#[trigger] s1.cache_at(i1).pages@[j1]).base as int,
            s1.cache_at(i1).pages@[j1].size as int,
            (#[trigger] s1.cache_at(i2).pages@[j2]).base as int,
            s1.cache_at(i2).pages@[j2].size as int,
        ) by {
            let fresh1 = i1 == ia && j1 >= old_len;
            let fresh2 = i2 == ia && j2 >= old_len;
            if fresh1 && fresh2 {
                assert(false);
            } else if fresh1 {
                assert(s1.cache_at(i1).pages@[j1].base as int >= lo);
                assert(s1.cache_at(i2).pages@[j2].base + s1.cache_at(i2).pages@[j2].size <= lo);
            } else if fresh2 {
                assert(s1.cache_at(i2).pages@[j2].base as int >= lo);
                assert(s1.cache_at(i1).pages@[j1].base + s1.cache_at(i1).pages@[j1].size <= lo);
            } else {
                assert(i_disjoint(
                    s0.cache_at(i1).pages@[j1].base as int,
                    s0.cache_at(i1).pages@[j1].size as int,
                    s0.cache_at(i2).pages@[j2].base as int,
                    s0.cache_at(i2).pages@[j2].size as int,
                ));
            }
        }
        // the carved block sits inside its page's window in s1
        let jb = choose|j: int|
            0 <= j < s1.cache_at(ia).pages@.len() && (#[trigger] s1.cache_at(ia).pages@[j]).base
                == b.page_base && s1.cache_at(ia).pages@[j].size == b.page_size;
        assert(b.page_base + b.page_size <= s1.mem.next_base);
        // previously ok blocks stay ok and are disjoint from the new block
        assert forall|bb: MemoryBlock| #[trigger] s0.block_ok(bb) implies s1.block_ok(bb)
            && i_disjoint(bb.offset as int, bb.size as int, b.offset as int, b.size as int) by {
            // bb's whole window, hence its range, ends at or below lo
            assert(bb.offset + bb.size <= lo);
            // bb stays clear of every free range
            assert forall|i: int, j: int, m: int|
                0 <= i < n && 0 <= j < s1.cache_at(i).pages@.len() && 0 <= m < s1.cache_at(
                    i,
                ).pages@[j].free@.len() implies i_disjoint(
                (#[trigger] s1.cache_at(i).pages@[j].free@[m]).0 as int,
                s1.cache_at(i).pages@[j].free@[m].1 as int,
                bb.offset as int,
                bb.size as int,
            ) by {
                if i != ia {
                    assert(s1.cache_at(i) == s0.cache_at(i));
                    assert(s0.free_clear(bb.offset as int, bb.size as int));
                } else {
                    if j < old_len {
                        let f = s1.cache_at(ia).pages@[j].free@[m];
                        let k0 = choose|k: int|
                            0 <= k < s0.cache_at(ia).pages@[j].free@.len() && crate::memory::i_contains(
                                (#[trigger] s0.cache_at(ia).pages@[j].free@[k]).0 as int,
                                s0.cache_at(ia).pages@[j].free@[k].1 as int,
                                f.0 as int,
                                f.1 as int,
                            );
                        assert(i_disjoint(
                            s0.cache_at(ia).pages@[j].free@[k0].0 as int,
                            s0.cache_at(ia).pages@[j].free@[k0].1 as int,
                            bb.offset as int,
                            bb.size as int,
                        ));
                    } else {
                        assert(s1.cache_at(ia).pages@[j].free@[m].0 as int >= lo);
                    }
                }
            }
            // bb cannot collide with a page that did not exist when it was ok
            assert forall|i: int, j: int|
                0 <= i < n && 0 <= j < s1.cache_at(i).pages@.len() && (#[trigger] s1.cache_at(
                    i,
                ).pages@[j]).base == bb.page_base implies s1.cache_at(i).pages@[j].size
                == bb.page_size by {
                if i == ia && j >= old_len {
                    assert(s1.cache_at(i).pages@[j].base as int >= lo);
                    assert(bb.page_base + bb.page_size <= lo);
                    assert(bb.page_size >= 1);
                    assert(false);
                } else {
                    assert(s0.page_size_agrees(bb));
                }
            }
            // disjointness from the new block
            if b.offset as int >= lo {
                assert(bb.offset + bb.size <= b.offset);
            } else {
                let (j0, k0) = choose|j0: int, k0: int|
                    0 <= j0 < s0.cache_at(ia).pages@.len() && 0 <= k0 < s0.cache_at(
                        ia,
                    ).pages@[j0].free@.len() && crate::memory::i_contains(
                        (#[trigger] s0.cache_at(ia).pages@[j0].free@[k0]).0 as int,
                        s0.cache_at(ia).pages@[j0].free@[k0].1 as int,
                        b.offset as int,
                        b.size as int,
                    );
                assert(i_disjoint(
                    s0.cache_at(ia).pages@[j0].free@[k0].0 as int,
                    s0.cache_at(ia).pages@[j0].free@[k0].1 as int,
                    bb.offset as int,
                    bb.size as int,
                ));
            }
        }
        // the new block itself is ok in s1
        assert forall|i: int, j: int, m: int|
            0 <= i < n && 0 <= j < s1.cache_at(i).pages@.len() && 0 <= m < s1.cache_at(
                i,
            ).pages@[j].free@.len() implies i_disjoint(
            (#[trigger] s1.cache_at(i).pages@[j].free@[m]).0 as int,
            s1.cache_at(i).pages@[j].free@[m].1 as int,
            b.offset as int,
            b.size as int,
        ) by {
            if i == ia {
            } else {
                // the free range lives in another page's window, disjoint
                // from the window of b's page
                assert(s1.cache_at(i) == s0.cache_at(i));
                let f = s1.cache_at(i).pages@[m as int];
                assert(crate::memory::i_contains(
                    s1.cache_at(i).pages@[j].base as int,
                    s1.cache_at(i).pages@[j].size as int,
                    s1.cache_at(i).pages@[j].free@[m].0 as int,
                    s1.cache_at(i).pages@[j].free@[m].1 as int,
                ));
                assert(i_disjoint(
                    s1.cache_at(i).pages@[j].base as int,
                    s1.cache_at(i).pages@[j].size as int,
                    s1.cache_at(ia).pages@[jb].base as int,
                    s1.cache_at(ia).pages@[jb].size as int,
                ));
            }
        }
        assert forall|i: int, j: int|
            0 <= i < n && 0 <= j < s1.cache_at(i).pages@.len() && (#[trigger] s1.cache_at(
                i,
            ).pages@[j]).base == b.page_base implies s1.cache_at(i).pages@[j].size
            == b.page_size by {
            if i == ia && j == jb {
            } else {
                assert(i_disjoint(
                    s1.cache_at(i).pages@[j].base as int,
                    s1.cache_at(i).pages@[j].size as int,
                    s1.cache_at(ia).pages@[jb].base as int,
                    s1.cache_at(ia).pages@[jb].size as int,
                ));
                assert(s1.cache_at(i).pages@[j].size >= 1);
                assert(false);
            }
        }
        assert(s1.block_ok(b));
        // the registries are untouched, so every live block stays ok
        assert forall|t: int, k: u64, s: int| s1.is_live(t, k, s) implies s1.block_ok(
            #[trigger] s1.live_block(t, k, s),
        ) && s1.live_block(t, k, s).host_visible == (s == 0) by {
            assert(s0.is_live(t, k, s));
            assert(s1.live_block(t, k, s) == s0.live_block(t, k, s));
            assert(s0.block_ok(s0.live_block(t, k, s)));
        }
        assert forall|t: int, k: u64| s1.is_live(t, k, 0) implies (#[trigger] s1.live_block(
            t,
            k,
            0,
        )).addr_spec() == k by {
            assert(s0.is_live(t, k, 0));
            assert(s1.live_block(t, k, 0) == s0.live_block(t, k, 0));
        }
        assert forall|t1: int, k1: u64, s1x: int, t2: int, k2: u64, s2x: int|
            s1.is_live(t1, k1, s1x) && s1.is_live(t2, k2, s2x) && (t1 != t2 || k1 != k2 || s1x
                != s2x) implies i_disjoint(
            (#[trigger] s1.live_block(t1, k1, s1x)).offset as int,
            s1.live_block(t1, k1, s1x).size as int,
            (#[trigger] s1.live_block(t2, k2, s2x)).offset as int,
            s1.live_block(t2, k2, s2x).size as int,
        ) by {
            assert(s0.is_live(t1, k1, s1x) && s0.is_live(t2, k2, s2x));
            assert(s1.live_block(t1, k1, s1x) == s0.live_block(t1, k1, s1x));
            assert(s1.live_block(t2, k2, s2x) == s0.live_block(t2, k2, s2x));
        }
        assert(s1.entries_wf());
        assert(s1.entry_shapes_wf());
        // entry residence survives: existing pages keep their bases in
        // every cache
        assert forall|k: u64| s1.ptr_work.mapped_memory_cache@.contains_key(k)
            implies crate::memory::page_resident(
            s1.staging_buffer_cache,
            (#[trigger] s1.ptr_work.mapped_memory_cache@[k]).staging,
        ) && crate::memory::page_resident(
            s1.vertex_buffer_cache,
            s1.ptr_work.mapped_memory_cache@[k].device,
        ) by {
            assert(s0.ptr_work.mapped_memory_cache@.contains_key(k));
            let e = s0.ptr_work.mapped_memory_cache@[k];
            let j1 = choose|j: int|
                0 <= j < s0.staging_buffer_cache.pages@.len() && (
                #[trigger] s0.staging_buffer_cache.pages@[j]).base == e.staging.page_base;
            assert(s1.cache_at(0).pages@[j1].base == s0.cache_at(0).pages@[j1].base);
            let j2 = choose|j: int|
                0 <= j < s0.vertex_buffer_cache.pages@.len() && (
                #[trigger] s0.vertex_buffer_cache.pages@[j]).base == e.device.page_base;
            assert(s1.cache_at(2).pages@[j2].base == s0.cache_at(2).pages@[j2].base);
        }
        assert forall|k: u64| s1.ptr_work.mapped_memory_cache_shader_storage@.contains_key(k)
            implies crate::memory::page_resident(
            s1.staging_buffer_cache,
            (#[trigger] s1.ptr_work.mapped_memory_cache_shader_storage@[k]).base.staging,
        ) && crate::memory::page_resident(
            s1.shader_storage_cache,
            s1.ptr_work.mapped_memory_cache_shader_storage@[k].base.device,
        ) by {
            assert(s0.ptr_work.mapped_memory_cache_shader_storage@.contains_key(k));
            let e = s0.ptr_work.mapped_memory_cache_shader_storage@[k];
            let j1 = choose|j: int|
                0 <= j < s0.staging_buffer_cache.pages@.len() && (
                #[trigger] s0.staging_buffer_cache.pages@[j]).base == e.base.staging.page_base;
            assert(s1.cache_at(0).pages@[j1].base == s0.cache_at(0).pages@[j1].base);
            let j2 = choose|j: int|
                0 <= j < s0.shader_storage_cache.pages@.len() && (
                #[trigger] s0.shader_storage_cache.pages@[j]).base == e.base.device.page_base;
            assert(s1.cache_at(3).pages@[j2].base == s0.cache_at(3).pages@[j2].base);
        }
        assert forall|k: u64| s1.ptr_work.mapped_memory_cache_image@.contains_key(k)
            implies crate::memory::page_resident(
            s1.staging_buffer_cache_image,
            (#[trigger] s1.ptr_work.mapped_memory_cache_image@[k]).staging,
        ) by {
            assert(s0.ptr_work.mapped_memory_cache_image@.contains_key(k));
            let e = s0.ptr_work.mapped_memory_cache_image@[k];
            let j1 = choose|j: int|
                0 <= j < s0.staging_buffer_cache_image.pages@.len() && (
                #[trigger] s0.staging_buffer_cache_image.pages@[j]).base == e.staging.page_base;
            assert(s1.cache_at(1).pages@[j1].base == s0.cache_at(1).pages@[j1].base);
        }
        assert(s1.residence_wf());
        // the visibility flags carry over field by field
        assert forall|i: int| 0 <= i < s1.n_caches() implies (#[trigger] s1.cache_at(
            i,
        )).host_visible == s0.cache_at(i).host_visible by {
            if i != ia {
                assert(s1.cache_at(i) == s0.cache_at(i));
            }
        }
        assert(s1.cache_at(0).host_visible == s0.cache_at(0).host_visible);
        assert(s1.cache_at(1).host_visible == s0.cache_at(1).host_visible);
        assert(s1.cache_at(2).host_visible == s0.cache_at(2).host_visible);
        assert(s1.cache_at(3).host_visible == s0.cache_at(3).host_visible);
        assert(s1.wf());
    }
}

} // verus!

verus! {

impl VulkanAllocator {
    /// Registering an entry whose two blocks are ok, mutually disjoint and
    /// disjoint from every live block keeps the allocator's invariant.
    proof fn lemma_insert_entry(
        s1: VulkanAllocator,
        s2: VulkanAllocator,
        t: int,
        key: u64,
        b_staging: MemoryBlock,
        b_dev: MemoryBlock,
    )
        requires
            s1.wf(),
            t == kind_buffer() || t == kind_shader_storage() || t == kind_image(),
            s2.mem == s1.mem,
            s2.limits == s1.limits,
            s2.shader_storage_descr_pools == s1.shader_storage_descr_pools,
            s2.staging_buffer_cache == s1.staging_buffer_cache,
            s2.staging_buffer_cache_image == s1.staging_buffer_cache_image,
            s2.vertex_buffer_cache == s1.vertex_buffer_cache,
            s2.shader_storage_cache == s1.shader_storage_cache,
            s2.image_buffer_caches@ == s1.image_buffer_caches@,
            t == kind_buffer() ==> {
                &&& s2.ptr_work.mapped_memory_cache@ == s1.ptr_work.mapped_memory_cache@.insert(
                    key,
                    s2.ptr_work.mapped_memory_cache@[key],
                )
                &&& s2.ptr_work.mapped_memory_cache@.contains_key(key)
                &&& s2.ptr_work.mapped_memory_cache@[key].wf()
                &&& s2.ptr_work.mapped_memory_cache_shader_storage@
                    == s1.ptr_work.mapped_memory_cache_shader_storage@
                &&& s2.ptr_work.mapped_memory_cache_image@ == s1.ptr_work.mapped_memory_cache_image@
            },
            t == kind_shader_storage() ==> {
                &&& s2.ptr_work.mapped_memory_cache_shader_storage@
                    == s1.ptr_work.mapped_memory_cache_shader_storage@.insert(
                    key,
                    s2.ptr_work.mapped_memory_cache_shader_storage@[key],
                )
                &&& s2.ptr_work.mapped_memory_cache_shader_storage@.contains_key(key)
                &&& s2.ptr_work.mapped_memory_cache_shader_storage@[key].base.wf()
                &&& s2.ptr_work.mapped_memory_cache@ == s1.ptr_work.mapped_memory_cache@
                &&& s2.ptr_work.mapped_memory_cache_image@ == s1.ptr_work.mapped_memory_cache_image@
            },
            t == kind_image() ==> {
                &&& s2.ptr_work.mapped_memory_cache_image@
                    == s1.ptr_work.mapped_memory_cache_image@.insert(
                    key,
                    s2.ptr_work.mapped_memory_cache_image@[key],
                )
                &&& s2.ptr_work.mapped_memory_cache_image@.contains_key(key)
                &&& {
                    let e = s2.ptr_work.mapped_memory_cache_image@[key];
                    &&& e.staging.wf()
                    &&& e.img_mem.base.wf()
                    &&& e.staging.host_visible
                    &&& !e.img_mem.base.host_visible
                    &&& 1 <= e.data.width
                    &&& 1 <= e.data.height
                    &&& 1 <= e.data.depth
                    &&& 1 <= e.data.mip_map_count
                }
                &&& s2.ptr_work.mapped_memory_cache@ == s1.ptr_work.mapped_memory_cache@
                &&& s2.ptr_work.mapped_memory_cache_shader_storage@
                    == s1.ptr_work.mapped_memory_cache_shader_storage@
            },
            s2.live_block(t, key, 0) == b_staging,
            s2.live_block(t, key, 1) == b_dev,
            s1.block_ok(b_staging),
            s1.block_ok(b_dev),
            t == kind_buffer() ==> crate::memory::page_resident(
                s2.staging_buffer_cache,
                b_staging,
            ) && crate::memory::page_resident(s2.vertex_buffer_cache, b_dev),
            t == kind_shader_storage() ==> crate::memory::page_resident(
                s2.staging_buffer_cache,
                b_staging,
            ) && crate::memory::page_resident(s2.shader_storage_cache, b_dev),
            t == kind_image() ==> crate::memory::page_resident(
                s2.staging_buffer_cache_image,
                b_staging,
            ),
            i_disjoint(
                b_staging.offset as int,
                b_staging.size as int,
                b_dev.offset as int,
                b_dev.size as int,
            ),
            b_staging.addr_spec() == key,
            b_staging.host_visible,
            !b_dev.host_visible,
            forall|t2: int, k2: u64, sx: int|
                s1.is_live(t2, k2, sx) ==> i_disjoint(
                    (#[trigger] s1.live_block(t2, k2, sx)).offset as int,
                    s1.live_block(t2, k2, sx).size as int,
                    b_staging.offset as int,
                    b_staging.size as int,
                ) && i_disjoint(
                    s1.live_block(t2, k2, sx).offset as int,
                    s1.live_block(t2, k2, sx).size as int,
                    b_dev.offset as int,
                    b_dev.size as int,
                ),
        ensures
            s2.wf(),
    {
        assert(s2.n_caches() == s1.n_caches());
        assert forall|i: int| 0 <= i < s1.n_caches() implies #[trigger] s2.cache_at(i)
            == s1.cache_at(i) by {}
        // ok-ness of a block does not depend on the registries
        assert forall|x: MemoryBlock| #[trigger] s1.block_ok(x) implies s2.block_ok(x) by {
            assert forall|i: int, j: int, m: int|
                0 <= i < s2.n_caches() && 0 <= j < s2.cache_at(i).pages@.len() && 0 <= m
                    < s2.cache_at(i).pages@[j].free@.len() implies i_disjoint(
                (#[trigger] s2.cache_at(i).pages@[j].free@[m]).0 as int,
                s2.cache_at(i).pages@[j].free@[m].1 as int,
                x.offset as int,
                x.size as int,
            ) by {
                assert(s2.cache_at(i) == s1.cache_at(i));
                assert(s1.free_clear(x.offset as int, x.size as int));
            }
            assert forall|i: int, j: int|
                0 <= i < s2.n_caches() && 0 <= j < s2.cache_at(i).pages@.len() && (
                #[trigger] s2.cache_at(i).pages@[j]).base == x.page_base implies s2.cache_at(
                i,
            ).pages@[j].size == x.page_size by {
                assert(s2.cache_at(i) == s1.cache_at(i));
                assert(s1.page_size_agrees(x));
            }
        }
        // an old key keeps its entry
        assert forall|t2: int, k2: u64, sx: int|
            s2.is_live(t2, k2, sx) && !(t2 == t && k2 == key) implies s1.is_live(t2, k2, sx)
            && s2.live_block(t2, k2, sx) == s1.live_block(t2, k2, sx) by {}
        // every live block of s2 is ok and rightly host visible
        assert forall|t2: int, k2: u64, sx: int| s2.is_live(t2, k2, sx) implies s2.block_ok(
            #[trigger] s2.live_block(t2, k2, sx),
        ) && s2.live_block(t2, k2, sx).host_visible == (sx == 0) by {
            if t2 == t && k2 == key {
                if sx == 0 {
                    assert(s2.live_block(t2, k2, sx) == b_staging);
                } else {
                    assert(s2.live_block(t2, k2, sx) == b_dev);
                }
            } else {
                assert(s1.block_ok(s1.live_block(t2, k2, sx)));
            }
        }
        assert forall|t2: int, k2: u64| s2.is_live(t2, k2, 0) implies (#[trigger] s2.live_block(
            t2,
            k2,
            0,
        )).addr_spec() == k2 by {
            if t2 == t && k2 == key {
                assert(s2.live_block(t2, k2, 0) == b_staging);
            } else {
                assert(s1.live_block(t2, k2, 0).addr_spec() == k2);
            }
        }
        // pairwise disjointness over the extended registries
        assert forall|t1x: int, k1: u64, s1x: int, t2x: int, k2: u64, s2x: int|
            s2.is_live(t1x, k1, s1x) && s2.is_live(t2x, k2, s2x) && (t1x != t2x || k1 != k2 || s1x
                != s2x) implies i_disjoint(
            (#[trigger] s2.live_block(t1x, k1, s1x)).offset as int,
            s2.live_block(t1x, k1, s1x).size as int,
            (#[trigger] s2.live_block(t2x, k2, s2x)).offset as int,
            s2.live_block(t2x, k2, s2x).size as int,
        ) by {
            let new1 = t1x == t && k1 == key;
            let new2 = t2x == t && k2 == key;
            if new1 && new2 {
                assert(s1x != s2x);
            } else if new1 {
                assert(s1.is_live(t2x, k2, s2x));
            } else if new2 {
                assert(s1.is_live(t1x, k1, s1x));
            } else {
                assert(s1.is_live(t1x, k1, s1x) && s1.is_live(t2x, k2, s2x));
            }
        }
        assert(s2.entries_wf());
        assert forall|k2: u64| s2.ptr_work.mapped_memory_cache@.contains_key(k2) implies (
        #[trigger] s2.ptr_work.mapped_memory_cache@[k2]).wf() by {
            if !(t == kind_buffer() && k2 == key) {
                assert(s1.ptr_work.mapped_memory_cache@.contains_key(k2));
            }
        }
        assert forall|k2: u64|
            s2.ptr_work.mapped_memory_cache_shader_storage@.contains_key(k2) implies (
        #[trigger] s2.ptr_work.mapped_memory_cache_shader_storage@[k2]).base.wf() by {
            if !(t == kind_shader_storage() && k2 == key) {
                assert(s1.ptr_work.mapped_memory_cache_shader_storage@.contains_key(k2));
            }
        }
        assert forall|k2: u64| s2.ptr_work.mapped_memory_cache_image@.contains_key(k2) implies {
            let e = #[trigger] s2.ptr_work.mapped_memory_cache_image@[k2];
            &&& e.staging.wf()
            &&& e.img_mem.base.wf()
            &&& e.staging.host_visible
            &&& !e.img_mem.base.host_visible
            &&& 1 <= e.data.width
            &&& 1 <= e.data.height
            &&& 1 <= e.data.depth
            &&& 1 <= e.data.mip_map_count
        } by {
            if !(t == kind_image() && k2 == key) {
                assert(s1.ptr_work.mapped_memory_cache_image@.contains_key(k2));
            }
        }
        assert(s2.entry_shapes_wf());
        assert(s2.caches_wf());
        // residence: old entries keep their pages (the caches are the same),
        // the new entry's pages are given
        assert forall|k2: u64| s2.ptr_work.mapped_memory_cache@.contains_key(k2)
            implies crate::memory::page_resident(
            s2.staging_buffer_cache,
            (#[trigger] s2.ptr_work.mapped_memory_cache@[k2]).staging,
        ) && crate::memory::page_resident(
            s2.vertex_buffer_cache,
            s2.ptr_work.mapped_memory_cache@[k2].device,
        ) by {
            if !(t == kind_buffer() && k2 == key) {
                assert(s1.ptr_work.mapped_memory_cache@.contains_key(k2));
            }
        }
        assert forall|k2: u64| s2.ptr_work.mapped_memory_cache_shader_storage@.contains_key(k2)
            implies crate::memory::page_resident(
            s2.staging_buffer_cache,
            (#[trigger] s2.ptr_work.mapped_memory_cache_shader_storage@[k2]).base.staging,
        ) && crate::memory::page_resident(
            s2.shader_storage_cache,
            s2.ptr_work.mapped_memory_cache_shader_storage@[k2].base.device,
        ) by {
            if !(t == kind_shader_storage() && k2 == key) {
                assert(s1.ptr_work.mapped_memory_cache_shader_storage@.contains_key(k2));
            }
        }
        assert forall|k2: u64| s2.ptr_work.mapped_memory_cache_image@.contains_key(k2)
            implies crate::memory::page_resident(
            s2.staging_buffer_cache_image,
            (#[trigger] s2.ptr_work.mapped_memory_cache_image@[k2]).staging,
        ) by {
            if !(t == kind_image() && k2 == key) {
                assert(s1.ptr_work.mapped_memory_cache_image@.contains_key(k2));
            }
        }
        assert(s2.residence_wf());
        assert(s2.wf());
    }
}

} // verus!

verus! {

impl VulkanAllocator {
    /// Removing a registry entry keeps the invariant: every quantified
    /// clause ranges over a smaller live set.
    proof fn lemma_remove_entry(s1: VulkanAllocator, s2: VulkanAllocator, t: int, key: u64)
        requires
            s1.wf(),
            t == kind_buffer() || t == kind_shader_storage() || t == kind_image(),
            s2.mem == s1.mem,
            s2.limits == s1.limits,
            s2.shader_storage_descr_pools == s1.shader_storage_descr_pools,
            s2.staging_buffer_cache == s1.staging_buffer_cache,
            s2.staging_buffer_cache_image == s1.staging_buffer_cache_image,
            s2.vertex_buffer_cache == s1.vertex_buffer_cache,
            s2.shader_storage_cache == s1.shader_storage_cache,
            s2.image_buffer_caches@ == s1.image_buffer_caches@,
            t == kind_buffer() ==> {
                &&& s2.ptr_work.mapped_memory_cache@ == s1.ptr_work.mapped_memory_cache@.remove(key)
                &&& s2.ptr_work.mapped_memory_cache_shader_storage@
                    == s1.ptr_work.mapped_memory_cache_shader_storage@
                &&& s2.ptr_work.mapped_memory_cache_image@ == s1.ptr_work.mapped_memory_cache_image@
            },
            t == kind_shader_storage() ==> {
                &&& s2.ptr_work.mapped_memory_cache_shader_storage@
                    == s1.ptr_work.mapped_memory_cache_shader_storage@.remove(key)
                &&& s2.ptr_work.mapped_memory_cache@ == s1.ptr_work.mapped_memory_cache@
                &&& s2.ptr_work.mapped_memory_cache_image@ == s1.ptr_work.mapped_memory_cache_image@
            },
            t == kind_image() ==> {
                &&& s2.ptr_work.mapped_memory_cache_image@
                    == s1.ptr_work.mapped_memory_cache_image@.remove(key)
                &&& s2.ptr_work.mapped_memory_cache@ == s1.ptr_work.mapped_memory_cache@
                &&& s2.ptr_work.mapped_memory_cache_shader_storage@
                    == s1.ptr_work.mapped_memory_cache_shader_storage@
            },
        ensures
            s2.wf(),
            forall|t2: int, k2: u64, sx: int|
                #[trigger] s2.is_live(t2, k2, sx) ==> s1.is_live(t2, k2, sx) && s2.live_block(
                    t2,
                    k2,
                    sx,
                ) == s1.live_block(t2, k2, sx),
            forall|x: MemoryBlock| #[trigger] s1.block_ok(x) ==> s2.block_ok(x),
    {
        assert(s2.n_caches() == s1.n_caches());
        assert forall|i: int| 0 <= i < s1.n_caches() implies #[trigger] s2.cache_at(i)
            == s1.cache_at(i) by {}
        assert forall|x: MemoryBlock| #[trigger] s1.block_ok(x) implies s2.block_ok(x) by {
            assert forall|i: int, j: int, m: int|
                0 <= i < s2.n_caches() && 0 <= j < s2.cache_at(i).pages@.len() && 0 <= m
                    < s2.cache_at(i).pages@[j].free@.len() implies i_disjoint(
                (#[trigger] s2.cache_at(i).pages@[j].free@[m]).0 as int,
                s2.cache_at(i).pages@[j].free@[m].1 as int,
                x.offset as int,
                x.size as int,
            ) by {
                assert(s2.cache_at(i) == s1.cache_at(i));
                assert(s1.free_clear(x.offset as int, x.size as int));
            }
            assert forall|i: int, j: int|
                0 <= i < s2.n_caches() && 0 <= j < s2.cache_at(i).pages@.len() && (
                #[trigger] s2.cache_at(i).pages@[j]).base == x.page_base implies s2.cache_at(
                i,
            ).pages@[j].size == x.page_size by {
                assert(s2.cache_at(i) == s1.cache_at(i));
                assert(s1.page_size_agrees(x));
            }
        }
        assert forall|t2: int, k2: u64, sx: int| #[trigger] s2.is_live(t2, k2, sx) implies s1.is_live(
            t2,
            k2,
            sx,
        ) && s2.live_block(t2, k2, sx) == s1.live_block(t2, k2, sx) by {}
        assert forall|t2: int, k2: u64, sx: int| s2.is_live(t2, k2, sx) implies s2.block_ok(
            #[trigger] s2.live_block(t2, k2, sx),
        ) && s2.live_block(t2, k2, sx).host_visible == (sx == 0) by {
            assert(s1.block_ok(s1.live_block(t2, k2, sx)));
        }
        assert forall|t2: int, k2: u64| s2.is_live(t2, k2, 0) implies (#[trigger] s2.live_block(
            t2,
            k2,
            0,
        )).addr_spec() == k2 by {
            assert(s1.live_block(t2, k2, 0).addr_spec() == k2);
        }
        assert forall|t1x: int, k1: u64, s1x: int, t2x: int, k2: u64, s2x: int|
            s2.is_live(t1x, k1, s1x) && s2.is_live(t2x, k2, s2x) && (t1x != t2x || k1 != k2 || s1x
                != s2x) implies i_disjoint(
            (#[trigger] s2.live_block(t1x, k1, s1x)).offset as int,
            s2.live_block(t1x, k1, s1x).size as int,
            (#[trigger] s2.live_block(t2x, k2, s2x)).offset as int,
            s2.live_block(t2x, k2, s2x).size as int,
        ) by {
            assert(s1.is_live(t1x, k1, s1x) && s1.is_live(t2x, k2, s2x));
        }
        assert(s2.entries_wf());
        assert(s2.entry_shapes_wf());
        assert(s2.caches_wf());
        assert(s2.wf());
    }

    /// Returning the range of a block that no registry holds any more to its
    /// page's free list keeps the invariant.
    proof fn lemma_release_preserves(s1: VulkanAllocator, s2: VulkanAllocator, ia: int, b: MemoryBlock)
        requires
            s1.wf(),
            0 <= ia < s1.n_caches(),
            same_but_cache(s1, s2, ia),
            s2.mem == s1.mem,
            b.wf(),
            s1.block_ok(b),
            forall|t2: int, k2: u64, sx: int|
                s1.is_live(t2, k2, sx) ==> i_disjoint(
                    (#[trigger] s1.live_block(t2, k2, sx)).offset as int,
                    s1.live_block(t2, k2, sx).size as int,
                    b.offset as int,
                    b.size as int,
                ),
            s2.cache_at(ia).pages_wf(),
            s2.cache_at(ia).host_visible == s1.cache_at(ia).host_visible,
            s2.cache_at(ia).pages@.len() == s1.cache_at(ia).pages@.len(),
            forall|j: int|
                0 <= j < s1.cache_at(ia).pages@.len() && (#[trigger] s1.cache_at(ia).pages@[j]).base
                    != b.page_base ==> s2.cache_at(ia).pages@[j] == s1.cache_at(ia).pages@[j],
            forall|j: int|
                0 <= j < s1.cache_at(ia).pages@.len() && (#[trigger] s1.cache_at(ia).pages@[j]).base
                    == b.page_base ==> s2.cache_at(ia).pages@[j].free@ == s1.cache_at(
                    ia,
                ).pages@[j].free@.push((b.offset, b.size)) && s2.cache_at(ia).pages@[j].base
                    == s1.cache_at(ia).pages@[j].base && s2.cache_at(ia).pages@[j].size
                    == s1.cache_at(ia).pages@[j].size,
        ensures
            s2.wf(),
            forall|x: MemoryBlock|
                #[trigger] s1.block_ok(x) && i_disjoint(
                    x.offset as int,
                    x.size as int,
                    b.offset as int,
                    b.size as int,
                ) ==> s2.block_ok(x),
    {
        let n = s1.n_caches();
        // windows are untouched everywhere
        assert forall|i: int, j: int|
            0 <= i < n && 0 <= j < s2.cache_at(i).pages@.len() implies (#[trigger] s2.cache_at(
            i,
        ).pages@[j]).base == s1.cache_at(i).pages@[j].base && s2.cache_at(i).pages@[j].size
            == s1.cache_at(i).pages@[j].size && s2.cache_at(i).pages@.len() == s1.cache_at(
            i,
        ).pages@.len() by {
            if i != ia {
                assert(s2.cache_at(i) == s1.cache_at(i));
            } else {
                if s1.cache_at(ia).pages@[j].base != b.page_base {
                    assert(s2.cache_at(ia).pages@[j] == s1.cache_at(ia).pages@[j]);
                }
            }
        }
        assert forall|i: int| 0 <= i < n implies (#[trigger] s2.cache_at(i)).pages_wf()
            && s2.cache_at(i).below(s2.mem.next_base as int) by {
            if i != ia {
                assert(s2.cache_at(i) == s1.cache_at(i));
            } else {
                assert forall|j: int|
                    0 <= j < s2.cache_at(ia).pages@.len() implies (#[trigger] s2.cache_at(
                    ia,
                ).pages@[j]).base + s2.cache_at(ia).pages@[j].size <= s2.mem.next_base as int by {
                    assert(s1.cache_at(ia).below(s1.mem.next_base as int));
                }
            }
        }
        assert forall|i1: int, j1: int, i2: int, j2: int|
            0 <= i1 < n && 0 <= j1 < s2.cache_at(i1).pages@.len() && 0 <= i2 < n && 0 <= j2
                < s2.cache_at(i2).pages@.len() && (i1 != i2 || j1 != j2) implies i_disjoint(
            (#[trigger] s2.cache_at(i1).pages@[j1]).base as int,
            s2.cache_at(i1).pages@[j1].size as int,
            (#[trigger] s2.cache_at(i2).pages@[j2]).base as int,
            s2.cache_at(i2).pages@[j2].size as int,
        ) by {
            assert(i_disjoint(
                s1.cache_at(i1).pages@[j1].base as int,
                s1.cache_at(i1).pages@[j1].size as int,
                s1.cache_at(i2).pages@[j2].base as int,
                s1.cache_at(i2).pages@[j2].size as int,
            ));
        }
        // a free range of s2 is an old free range or exactly b's range
        assert forall|x: MemoryBlock|
            #[trigger] s1.block_ok(x) && i_disjoint(
                x.offset as int,
                x.size as int,
                b.offset as int,
                b.size as int,
            ) implies s2.block_ok(x) by {
            assert forall|i: int, j: int, m: int|
                0 <= i < n && 0 <= j < s2.cache_at(i).pages@.len() && 0 <= m < s2.cache_at(
                    i,
                ).pages@[j].free@.len() implies i_disjoint(
                (#[trigger] s2.cache_at(i).pages@[j].free@[m]).0 as int,
                s2.cache_at(i).pages@[j].free@[m].1 as int,
                x.offset as int,
                x.size as int,
            ) by {
                assert(s1.free_clear(x.offset as int, x.size as int));
                if i == ia && s1.cache_at(ia).pages@[j].base == b.page_base && m == s1.cache_at(
                    ia,
                ).pages@[j].free@.len() {
                    assert(s2.cache_at(i).pages@[j].free@[m] == (b.offset, b.size));
                } else if i == ia && s1.cache_at(ia).pages@[j].base == b.page_base {
                    assert(s2.cache_at(i).pages@[j].free@[m] == s1.cache_at(i).pages@[j].free@[m]);
                } else if i == ia {
                    assert(s2.cache_at(ia).pages@[j] == s1.cache_at(ia).pages@[j]);
                } else {
                    assert(s2.cache_at(i) == s1.cache_at(i));
                }
            }
            assert forall|i: int, j: int|
                0 <= i < n && 0 <= j < s2.cache_at(i).pages@.len() && (#[trigger] s2.cache_at(
                    i,
                ).pages@[j]).base == x.page_base implies s2.cache_at(i).pages@[j].size
                == x.page_size by {
                assert(s1.page_size_agrees(x));
                assert(s1.cache_at(i).pages@[j].base == s2.cache_at(i).pages@[j].base);
            }
        }
        assert forall|t2: int, k2: u64, sx: int| s2.is_live(t2, k2, sx) implies s2.block_ok(
            #[trigger] s2.live_block(t2, k2, sx),
        ) && s2.live_block(t2, k2, sx).host_visible == (sx == 0) by {
            assert(s1.is_live(t2, k2, sx));
            assert(s2.live_block(t2, k2, sx) == s1.live_block(t2, k2, sx));
            assert(s1.block_ok(s1.live_block(t2, k2, sx)));
            assert(i_disjoint(
                s1.live_block(t2, k2, sx).offset as int,
                s1.live_block(t2, k2, sx).size as int,
                b.offset as int,
                b.size as int,
            ));
        }
        assert forall|t2: int, k2: u64| s2.is_live(t2, k2, 0) implies (#[trigger] s2.live_block(
            t2,
            k2,
            0,
        )).addr_spec() == k2 by {
            assert(s1.is_live(t2, k2, 0));
            assert(s2.live_block(t2, k2, 0) == s1.live_block(t2, k2, 0));
        }
        assert forall|t1x: int, k1: u64, s1x: int, t2x: int, k2: u64, s2x: int|
            s2.is_live(t1x, k1, s1x) && s2.is_live(t2x, k2, s2x) && (t1x != t2x || k1 != k2 || s1x
                != s2x) implies i_disjoint(
            (#[trigger] s2.live_block(t1x, k1, s1x)).offset as int,
            s2.live_block(t1x, k1, s1x).size as int,
            (#[trigger] s2.live_block(t2x, k2, s2x)).offset as int,
            s2.live_block(t2x, k2, s2x).size as int,
        ) by {
            assert(s1.is_live(t1x, k1, s1x) && s1.is_live(t2x, k2, s2x));
            assert(s2.live_block(t1x, k1, s1x) == s1.live_block(t1x, k1, s1x));
            assert(s2.live_block(t2x, k2, s2x) == s1.live_block(t2x, k2, s2x));
        }
        assert(s2.entries_wf());
        assert(s2.entry_shapes_wf());
        assert forall|i: int| 0 <= i < n implies (#[trigger] s2.cache_at(i)).host_visible
            == s1.cache_at(i).host_visible by {
            if i != ia {
                assert(s2.cache_at(i) == s1.cache_at(i));
            }
        }
        assert(s2.cache_at(0).host_visible == s1.cache_at(0).host_visible);
        assert(s2.cache_at(1).host_visible == s1.cache_at(1).host_visible);
        assert(s2.cache_at(2).host_visible == s1.cache_at(2).host_visible);
        assert(s2.cache_at(3).host_visible == s1.cache_at(3).host_visible);
        assert(s2.caches_wf());
        assert(s2.wf());
    }

    /// The preconditions of [`MemoryCache::release`] hold for a block that
    /// is ok in a well-formed allocator.
    proof fn lemma_release_pre(s: VulkanAllocator, ia: int, b: MemoryBlock)
        requires
            s.wf(),
            0 <= ia < s.n_caches(),
            b.wf(),
            s.block_ok(b),
        ensures
            forall|j: int|
                0 <= j < s.cache_at(ia).pages@.len() && (#[trigger] s.cache_at(ia).pages@[j]).base
                    == b.page_base ==> s.cache_at(ia).pages@[j].size == b.page_size,
            forall|j1: int, j2: int|
                0 <= j1 < s.cache_at(ia).pages@.len() && 0 <= j2 < s.cache_at(ia).pages@.len() && (
                #[trigger] s.cache_at(ia).pages@[j1]).base == b.page_base && (#[trigger] s.cache_at(
                    ia,
                ).pages@[j2]).base == b.page_base ==> j1 == j2,
            forall|j: int, m: int|
                0 <= j < s.cache_at(ia).pages@.len() && 0 <= m < s.cache_at(ia).pages@[j].free@.len()
                    ==> i_disjoint(
                    (#[trigger] s.cache_at(ia).pages@[j].free@[m]).0 as int,
                    s.cache_at(ia).pages@[j].free@[m].1 as int,
                    b.offset as int,
                    b.size as int,
                ),
    {
        assert forall|j1: int, j2: int|
            0 <= j1 < s.cache_at(ia).pages@.len() && 0 <= j2 < s.cache_at(ia).pages@.len() && (
            #[trigger] s.cache_at(ia).pages@[j1]).base == b.page_base && (#[trigger] s.cache_at(
                ia,
            ).pages@[j2]).base == b.page_base implies j1 == j2 by {
            if j1 != j2 {
                assert(i_disjoint(
                    s.cache_at(ia).pages@[j1].base as int,
                    s.cache_at(ia).pages@[j1].size as int,
                    s.cache_at(ia).pages@[j2].base as int,
                    s.cache_at(ia).pages@[j2].size as int,
                ));
                assert(s.cache_at(ia).pages@[j1].size >= 1);
                assert(s.cache_at(ia).pages@[j2].size >= 1);
                assert(false);
            }
        }
        assert forall|j: int, m: int|
            0 <= j < s.cache_at(ia).pages@.len() && 0 <= m < s.cache_at(ia).pages@[j].free@.len()
                implies i_disjoint(
            (#[trigger] s.cache_at(ia).pages@[j].free@[m]).0 as int,
            s.cache_at(ia).pages@[j].free@[m].1 as int,
            b.offset as int,
            b.size as int,
        ) by {
            assert(s.free_clear(b.offset as int, b.size as int));
        }
        assert forall|j: int|
            0 <= j < s.cache_at(ia).pages@.len() && (#[trigger] s.cache_at(ia).pages@[j]).base
                == b.page_base implies s.cache_at(ia).pages@[j].size == b.page_size by {
            assert(s.page_size_agrees(b));
        }
    }
}

} // verus!

verus! {

/// The alignment staging buffers are carved at: the non-coherent atom
/// size, but at least 16.
pub open spec fn spec_staging_align(l: Limits) -> u64 {
    if l.non_coherent_mem_alignment >= 16 {
        l.non_coherent_mem_alignment
    } else {
        16u64
    }
}

impl VulkanAllocator {
    /// Carves a staging block and its device-local counterpart for a buffer
    /// of `required_size` bytes, registers the pair under the staging
    /// block's address in the buffer or shader-storage registry, and
    /// returns that address. On exhaustion nothing is registered and every
    /// carved block is returned to its cache.
    fn get_staging_buffer_for_mem_alloc_impl(
        &mut self,
        required_size: u64,
        shader_storage: bool,
    ) -> (r: Result<u64, BufferAllocationError>)
        requires
            old(self).wf(),
            1 <= required_size <= MAX_ALLOC_SIZE,
        ensures
            final(self).wf(),
            final(self).limits == old(self).limits,
            final(self).mem.image_memory_type_bits == old(self).mem.image_memory_type_bits,
            final(self).image_buffer_caches@ == old(self).image_buffer_caches@,
            final(self).shader_storage_descr_pools == old(self).shader_storage_descr_pools,
            final(self).ptr_work.mapped_memory_cache_image@ == old(self).ptr_work.mapped_memory_cache_image@,
            shader_storage ==> final(self).ptr_work.mapped_memory_cache@ == old(self).ptr_work.mapped_memory_cache@,
            !shader_storage ==> final(self).ptr_work.mapped_memory_cache_shader_storage@ == old(self).ptr_work.mapped_memory_cache_shader_storage@,
            // success is owed when both caches can already serve the request,
            // and whenever the address space still has room for two pages
            old(self).staging_buffer_cache.has_fit(
                required_size,
                spec_staging_align(old(self).limits),
            ) && (if shader_storage {
                old(self).shader_storage_cache
            } else {
                old(self).vertex_buffer_cache
            }).has_fit(required_size, 16) ==> r is Ok,
            old(self).mem.window_fits(
                2 * page_size_for(BUFFER_PAGE_SIZE, required_size) + ALIGN_GRANULARITY,
            ) ==> r is Ok,
            match r {
                Ok(addr) => {
                    &&& !old(self).spec_mem_block_exists(addr)
                    &&& !old(self).spec_mem_block_shader_storage_exists(addr)
                    &&& !old(self).spec_mem_block_image_exists(addr)
                    &&& (!shader_storage ==> {
                        &&& final(self).ptr_work.mapped_memory_cache@ == old(self).ptr_work.mapped_memory_cache@.insert(
                            addr,
                            final(self).ptr_work.mapped_memory_cache@[addr],
                        )
                        &&& final(self).spec_mem_block_exists(addr)
                        &&& final(self).ptr_work.mapped_memory_cache@[addr].is_flushed
                            == FlushType::NotFlushed
                        &&& final(self).ptr_work.mapped_memory_cache@[addr].staging.usable_size()
                            == required_size
                        &&& final(self).ptr_work.mapped_memory_cache@[addr].device.usable_size()
                            == required_size
                        &&& final(self).ptr_work.mapped_memory_cache@[addr].staging.addr_spec()
                            == addr
                        &&& (addr as int) % (spec_staging_align(old(self).limits) as int) == 0
                    })
                    &&& (shader_storage ==> {
                        &&& final(self).ptr_work.mapped_memory_cache_shader_storage@ == old(self).ptr_work.mapped_memory_cache_shader_storage@.insert(
                            addr,
                            final(self).ptr_work.mapped_memory_cache_shader_storage@[addr],
                        )
                        &&& final(self).spec_mem_block_shader_storage_exists(addr)
                        &&& final(self).ptr_work.mapped_memory_cache_shader_storage@[addr].base.is_flushed
                            == FlushType::NotFlushed
                        &&& final(self).ptr_work.mapped_memory_cache_shader_storage@[addr].base.staging.usable_size()
                            == required_size
                        &&& final(self).ptr_work.mapped_memory_cache_shader_storage@[addr].base.device.usable_size()
                            == required_size
                        &&& final(self).ptr_work.mapped_memory_cache_shader_storage@[addr].base.staging.addr_spec()
                            == addr
                        &&& (addr as int) % (spec_staging_align(old(self).limits) as int) == 0
                        &&& final(self).ptr_work.mapped_memory_cache_shader_storage@[addr].descriptor_sets
                            is None
                    })
                    // a fitting free range is reused: the page count only
                    // grows when nothing fits
                    &&& final(self).staging_buffer_cache.pages@.len() == old(self).staging_buffer_cache.pages@.len() + (if old(self).staging_buffer_cache.has_fit(
                        required_size,
                        spec_staging_align(old(self).limits),
                    ) {
                        0int
                    } else {
                        1int
                    })
                    &&& (!shader_storage ==> final(self).vertex_buffer_cache.pages@.len() == old(self).vertex_buffer_cache.pages@.len() + (if old(self).vertex_buffer_cache.has_fit(
                        required_size,
                        16,
                    ) {
                        0int
                    } else {
                        1int
                    }))
                    &&& (shader_storage ==> final(self).shader_storage_cache.pages@.len() == old(self).shader_storage_cache.pages@.len() + (if old(self).shader_storage_cache.has_fit(
                        required_size,
                        16,
                    ) {
                        0int
                    } else {
                        1int
                    }))
                    // a page created by this allocation has the documented size
                    &&& (!old(self).staging_buffer_cache.has_fit(
                        required_size,
                        spec_staging_align(old(self).limits),
                    ) ==> final(self).staging_buffer_cache.pages@.last().size == page_size_for(
                        BUFFER_PAGE_SIZE,
                        required_size,
                    ))
                    &&& (!shader_storage && !old(self).vertex_buffer_cache.has_fit(
                        required_size,
                        16,
                    ) ==> final(self).vertex_buffer_cache.pages@.last().size == page_size_for(
                        BUFFER_PAGE_SIZE,
                        required_size,
                    ))
                    &&& (shader_storage && !old(self).shader_storage_cache.has_fit(
                        required_size,
                        16,
                    ) ==> final(self).shader_storage_cache.pages@.last().size == page_size_for(
                        BUFFER_PAGE_SIZE,
                        required_size,
                    ))
                    // the two blocks split exactly one free range each (or a
                    // fresh page); every other free range survives untouched
                    &&& (!shader_storage ==> crate::memory::carved_from(
                        old(self).staging_buffer_cache,
                        final(self).staging_buffer_cache,
                        final(self).ptr_work.mapped_memory_cache@[addr].staging,
                    ) && crate::memory::carved_from(
                        old(self).vertex_buffer_cache,
                        final(self).vertex_buffer_cache,
                        final(self).ptr_work.mapped_memory_cache@[addr].device,
                    ))
                    &&& (shader_storage ==> crate::memory::carved_from(
                        old(self).staging_buffer_cache,
                        final(self).staging_buffer_cache,
                        final(self).ptr_work.mapped_memory_cache_shader_storage@[addr].base.staging,
                    ) && crate::memory::carved_from(
                        old(self).shader_storage_cache,
                        final(self).shader_storage_cache,
                        final(self).ptr_work.mapped_memory_cache_shader_storage@[addr].base.device,
                    ))
                },
                Err(e) => {
                    &&& e == BufferAllocationError::OutOfMemory
                    &&& final(self).ptr_work.mapped_memory_cache@ == old(self).ptr_work.mapped_memory_cache@
                    &&& final(self).ptr_work.mapped_memory_cache_shader_storage@ == old(self).ptr_work.mapped_memory_cache_shader_storage@
                    // a staging block carved before the failure went back to
                    // its cache: no free byte is lost
                    &&& crate::memory::free_ranges_preserved(
                        old(self).staging_buffer_cache,
                        final(self).staging_buffer_cache,
                    )
                    &&& (!shader_storage ==> final(self).vertex_buffer_cache == old(self).vertex_buffer_cache)
                    &&& (shader_storage ==> final(self).shader_storage_cache == old(self).shader_storage_cache)
                },
            },
    {
        let ghost s0 = *self;
        let align_s = if self.limits.non_coherent_mem_alignment >= 16 {
            self.limits.non_coherent_mem_alignment
        } else {
            16u64
        };
        proof {
            assert(self.limits.wf());
            assert((ALIGN_GRANULARITY as int) % (align_s as int) == 0);
            assert(self.cache_at(0) == self.staging_buffer_cache);
            assert(self.mem.wf());
            assert(self.staging_buffer_cache.pages_wf());
            assert forall|j1: int, j2: int|
                0 <= j1 < self.staging_buffer_cache.pages@.len() && 0 <= j2
                    < self.staging_buffer_cache.pages@.len() && j1 != j2 implies i_disjoint(
                (#[trigger] self.staging_buffer_cache.pages@[j1]).base as int,
                self.staging_buffer_cache.pages@[j1].size as int,
                (#[trigger] self.staging_buffer_cache.pages@[j2]).base as int,
                self.staging_buffer_cache.pages@[j2].size as int,
            ) by {
                assert(i_disjoint(
                    s0.cache_at(0).pages@[j1].base as int,
                    s0.cache_at(0).pages@[j1].size as int,
                    s0.cache_at(0).pages@[j2].base as int,
                    s0.cache_at(0).pages@[j2].size as int,
                ));
            }
            assert(self.staging_buffer_cache.below(self.mem.next_base as int));
        }
        let res_block = self.mem.get_buffer_block_impl(
            &mut self.staging_buffer_cache,
            BUFFER_PAGE_SIZE,
            required_size,
            align_s,
        );
        let b1 = match res_block {
            Ok(b) => b,
            Err(e) => {
                proof {
                    assert(*self == s0);
                    crate::memory::lemma_free_ranges_preserved_refl(s0.staging_buffer_cache);
                    let psz = page_size_for(BUFFER_PAGE_SIZE, required_size);
                    if s0.mem.window_fits(2 * psz + ALIGN_GRANULARITY) {
                        crate::memory::lemma_align_up_monotone(
                            s0.mem.next_base + psz,
                            s0.mem.next_base + 2 * psz + ALIGN_GRANULARITY,
                            ALIGN_GRANULARITY as int,
                        );
                        assert(s0.mem.window_fits(psz));
                        assert(false);
                    }
                }
                return Err(e);
            },
        };
        proof {
            VulkanAllocator::lemma_acquire_preserves(s0, *self, 0, b1);
        }
        let ghost s1 = *self;
        let ghost ib: int = if shader_storage {
            3int
        } else {
            2int
        };
        proof {
            assert(self.cache_at(ib) == if shader_storage {
                self.shader_storage_cache
            } else {
                self.vertex_buffer_cache
            });
            assert((ALIGN_GRANULARITY as int) % 16int == 0);
            assert forall|j1: int, j2: int|
                0 <= j1 < s1.cache_at(ib).pages@.len() && 0 <= j2 < s1.cache_at(ib).pages@.len()
                    && j1 != j2 implies i_disjoint(
                (#[trigger] s1.cache_at(ib).pages@[j1]).base as int,
                s1.cache_at(ib).pages@[j1].size as int,
                (#[trigger] s1.cache_at(ib).pages@[j2]).base as int,
                s1.cache_at(ib).pages@[j2].size as int,
            ) by {}
        }
        let device_res = if shader_storage {
            self.mem.get_buffer_block_impl(
                &mut self.shader_storage_cache,
                BUFFER_PAGE_SIZE,
                required_size,
                16,
            )
        } else {
            self.mem.get_buffer_block_impl(
                &mut self.vertex_buffer_cache,
                BUFFER_PAGE_SIZE,
                required_size,
                16,
            )
        };
        match device_res {
            Ok(b2) => {
                proof {
                    assert(self.cache_at(ib) == if shader_storage {
                        self.shader_storage_cache
                    } else {
                        self.vertex_buffer_cache
                    });
                    VulkanAllocator::lemma_acquire_preserves(s1, *self, ib, b2);
                    assert(s1.block_ok(b1));
                    assert(self.block_ok(b1) && i_disjoint(
                        b1.offset as int,
                        b1.size as int,
                        b2.offset as int,
                        b2.size as int,
                    ));
                }
                let ghost s2 = *self;
                let addr = b1.addr();
                proof {
                    // live blocks of s2 are those of s0; all are disjoint
                    // from both carved blocks
                    assert forall|t2: int, k2: u64, sx: int| s2.is_live(t2, k2, sx) implies i_disjoint(
                        (#[trigger] s2.live_block(t2, k2, sx)).offset as int,
                        s2.live_block(t2, k2, sx).size as int,
                        b1.offset as int,
                        b1.size as int,
                    ) && i_disjoint(
                        s2.live_block(t2, k2, sx).offset as int,
                        s2.live_block(t2, k2, sx).size as int,
                        b2.offset as int,
                        b2.size as int,
                    ) by {
                        assert(s0.is_live(t2, k2, sx));
                        assert(s0.block_ok(s0.live_block(t2, k2, sx)));
                        assert(s2.live_block(t2, k2, sx) == s0.live_block(t2, k2, sx));
                        assert(s1.block_ok(s0.live_block(t2, k2, sx)));
                    }
                    // the address is fresh: a registered entry under it would
                    // hold a staging block containing it, yet disjoint from b1
                    assert forall|t2: int| !s2.is_live(t2, addr, 0) by {
                        if s2.is_live(t2, addr, 0) {
                            let bb = s2.live_block(t2, addr, 0);
                            assert(s0.is_live(t2, addr, 0));
                            assert(bb == s0.live_block(t2, addr, 0));
                            assert(bb.addr_spec() == addr);
                            assert(bb.wf());
                            assert(bb.offset <= addr < bb.offset + bb.size);
                            assert(b1.offset <= addr < b1.offset + b1.size);
                            assert(i_disjoint(
                                bb.offset as int,
                                bb.size as int,
                                b1.offset as int,
                                b1.size as int,
                            ));
                            assert(false);
                        }
                    }
                    assert(!s2.is_live(kind_buffer(), addr, 0));
                    assert(!s2.is_live(kind_shader_storage(), addr, 0));
                    assert(!s2.is_live(kind_image(), addr, 0));
                }
                let entry = VulkanAllocatorBufferCacheEntry {
                    staging: b1,
                    device: b2,
                    is_flushed: FlushType::NotFlushed,
                };
                if shader_storage {
                    self.ptr_work.mapped_memory_cache_shader_storage.insert(
                        addr,
                        VulkanAllocatorShaderStorageCacheEntry {
                            base: entry,
                            descriptor_sets: None,
                        },
                    );
                    proof {
                        VulkanAllocator::lemma_insert_entry(
                            s2,
                            *self,
                            kind_shader_storage(),
                            addr,
                            b1,
                            b2,
                        );
                    }
                } else {
                    self.ptr_work.mapped_memory_cache.insert(addr, entry);
                    proof {
                        VulkanAllocator::lemma_insert_entry(s2, *self, kind_buffer(), addr, b1, b2);
                    }
                }
                Ok(addr)
            },
            Err(e) => {
                proof {
                    assert(*self == s1);
                    let psz = page_size_for(BUFFER_PAGE_SIZE, required_size);
                    if s0.mem.window_fits(2 * psz + ALIGN_GRANULARITY) {
                        // the first page took at most one window plus a
                        // granule, so a second page still fits
                        crate::memory::lemma_align_up_monotone(
                            s1.mem.next_base + psz,
                            s0.mem.next_base + 2 * psz + ALIGN_GRANULARITY,
                            ALIGN_GRANULARITY as int,
                        );
                        assert(s1.mem.window_fits(psz));
                        assert(false);
                    }
                    VulkanAllocator::lemma_release_pre(s1, 0, b1);
                    assert(self.cache_at(0) == self.staging_buffer_cache);
                }
                let ghost live_before = *self;
                self.staging_buffer_cache.release(&b1);
                proof {
                    assert forall|t2: int, k2: u64, sx: int| s1.is_live(t2, k2, sx) implies i_disjoint(
                        (#[trigger] s1.live_block(t2, k2, sx)).offset as int,
                        s1.live_block(t2, k2, sx).size as int,
                        b1.offset as int,
                        b1.size as int,
                    ) by {
                        assert(s0.is_live(t2, k2, sx));
                        assert(s0.block_ok(s0.live_block(t2, k2, sx)));
                        assert(s1.live_block(t2, k2, sx) == s0.live_block(t2, k2, sx));
                    }
                    VulkanAllocator::lemma_release_preserves(s1, *self, 0, b1);
                    // the carved staging block is free again
                    assert forall|j1: int, j2: int|
                        0 <= j1 < s0.staging_buffer_cache.pages@.len() && 0 <= j2
                            < s0.staging_buffer_cache.pages@.len() && j1 != j2 implies i_disjoint(
                        (#[trigger] s0.staging_buffer_cache.pages@[j1]).base as int,
                        s0.staging_buffer_cache.pages@[j1].size as int,
                        (#[trigger] s0.staging_buffer_cache.pages@[j2]).base as int,
                        s0.staging_buffer_cache.pages@[j2].size as int,
                    ) by {
                        assert(i_disjoint(
                            s0.cache_at(0).pages@[j1].base as int,
                            s0.cache_at(0).pages@[j1].size as int,
                            s0.cache_at(0).pages@[j2].base as int,
                            s0.cache_at(0).pages@[j2].size as int,
                        ));
                    }
                    crate::memory::lemma_carve_then_release_preserves_free(
                        s0.staging_buffer_cache,
                        s1.staging_buffer_cache,
                        self.staging_buffer_cache,
                        b1,
                        s0.mem.next_base as int,
                    );
                }
                Err(e)
            },
        }
    }
}

} // verus!

verus! {

impl VulkanAllocator {
    /// Allocates writable staging memory for a vertex buffer of
    /// `required_size` bytes, eagerly reserving the device-local block it
    /// will be copied into, and returns the staging address.
    pub fn get_staging_buffer_for_mem_alloc(&mut self, required_size: u64) -> (r: Result<
        u64,
        BufferAllocationError,
    >)
        requires
            old(self).wf(),
            1 <= required_size <= MAX_ALLOC_SIZE,
        ensures
            final(self).wf(),
            final(self).limits == old(self).limits,
            match r {
                Ok(addr) => {
                    &&& !old(self).spec_mem_block_exists(addr)
                    &&& !old(self).spec_mem_block_shader_storage_exists(addr)
                    &&& !old(self).spec_mem_block_image_exists(addr)
                    &&& final(self).spec_mem_block_exists(addr)
                    &&& final(self).ptr_work.mapped_memory_cache@ == old(self).ptr_work.mapped_memory_cache@.insert(
                        addr,
                        final(self).ptr_work.mapped_memory_cache@[addr],
                    )
                    &&& final(self).ptr_work.mapped_memory_cache@[addr].is_flushed
                        == FlushType::NotFlushed
                    &&& final(self).ptr_work.mapped_memory_cache@[addr].staging.usable_size()
                        == required_size
                    &&& final(self).ptr_work.mapped_memory_cache@[addr].device.usable_size()
                        == required_size
                    &&& final(self).ptr_work.mapped_memory_cache@[addr].staging.addr_spec() == addr
                    &&& (addr as int) % (spec_staging_align(old(self).limits) as int) == 0
                    &&& final(self).staging_buffer_cache.pages@.len() == old(self).staging_buffer_cache.pages@.len() + (if old(self).staging_buffer_cache.has_fit(
                        required_size,
                        spec_staging_align(old(self).limits),
                    ) {
                        0int
                    } else {
                        1int
                    })
                    &&& final(self).vertex_buffer_cache.pages@.len() == old(self).vertex_buffer_cache.pages@.len() + (if old(self).vertex_buffer_cache.has_fit(
                        required_size,
                        16,
                    ) {
                        0int
                    } else {
                        1int
                    })
                    &&& (!old(self).staging_buffer_cache.has_fit(
                        required_size,
                        spec_staging_align(old(self).limits),
                    ) ==> final(self).staging_buffer_cache.pages@.last().size == page_size_for(
                        BUFFER_PAGE_SIZE,
                        required_size,
                    ))
                    &&& crate::memory::carved_from(
                        old(self).staging_buffer_cache,
                        final(self).staging_buffer_cache,
                        final(self).ptr_work.mapped_memory_cache@[addr].staging,
                    )
                    &&& crate::memory::carved_from(
                        old(self).vertex_buffer_cache,
                        final(self).vertex_buffer_cache,
                        final(self).ptr_work.mapped_memory_cache@[addr].device,
                    )
                },
                Err(e) => {
                    &&& e == BufferAllocationError::OutOfMemory
                    &&& final(self).ptr_work.mapped_memory_cache@ == old(self).ptr_work.mapped_memory_cache@
                    &&& crate::memory::free_ranges_preserved(
                        old(self).staging_buffer_cache,
                        final(self).staging_buffer_cache,
                    )
                    &&& final(self).vertex_buffer_cache == old(self).vertex_buffer_cache
                },
            },
            final(self).ptr_work.mapped_memory_cache_shader_storage@ == old(self).ptr_work.mapped_memory_cache_shader_storage@,
            final(self).ptr_work.mapped_memory_cache_image@ == old(self).ptr_work.mapped_memory_cache_image@,
            old(self).staging_buffer_cache.has_fit(
                required_size,
                spec_staging_align(old(self).limits),
            ) && old(self).vertex_buffer_cache.has_fit(required_size, 16) ==> r is Ok,
            old(self).mem.window_fits(
                2 * page_size_for(BUFFER_PAGE_SIZE, required_size) + ALIGN_GRANULARITY,
            ) ==> r is Ok,
    {
        self.get_staging_buffer_for_mem_alloc_impl(required_size, false)
    }

    /// Allocates writable staging memory for a shader-storage buffer of
    /// `required_size` bytes, eagerly reserving the device-local block, and
    /// returns the staging address. The descriptor set is bound later, by
    /// the first full flush.
    pub fn get_staging_buffer_for_shader_storage_mem_alloc(&mut self, required_size: u64) -> (r:
        Result<u64, BufferAllocationError>)
        requires
            old(self).wf(),
            1 <= required_size <= MAX_ALLOC_SIZE,
        ensures
            final(self).wf(),
            final(self).limits == old(self).limits,
            match r {
                Ok(addr) => {
                    &&& !old(self).spec_mem_block_exists(addr)
                    &&& !old(self).spec_mem_block_shader_storage_exists(addr)
                    &&& !old(self).spec_mem_block_image_exists(addr)
                    &&& final(self).spec_mem_block_shader_storage_exists(addr)
                    &&& final(self).ptr_work.mapped_memory_cache_shader_storage@ == old(self).ptr_work.mapped_memory_cache_shader_storage@.insert(
                        addr,
                        final(self).ptr_work.mapped_memory_cache_shader_storage@[addr],
                    )
                    &&& final(self).ptr_work.mapped_memory_cache_shader_storage@[addr].base.is_flushed
                        == FlushType::NotFlushed
                    &&& final(self).ptr_work.mapped_memory_cache_shader_storage@[addr].base.staging.usable_size()
                        == required_size
                    &&& final(self).ptr_work.mapped_memory_cache_shader_storage@[addr].base.device.usable_size()
                        == required_size
                    &&& final(self).ptr_work.mapped_memory_cache_shader_storage@[addr].base.staging.addr_spec()
                        == addr
                    &&& (addr as int) % (spec_staging_align(old(self).limits) as int) == 0
                    &&& final(self).ptr_work.mapped_memory_cache_shader_storage@[addr].descriptor_sets
                        is None
                    &&& final(self).staging_buffer_cache.pages@.len() == old(self).staging_buffer_cache.pages@.len() + (if old(self).staging_buffer_cache.has_fit(
                        required_size,
                        spec_staging_align(old(self).limits),
                    ) {
                        0int
                    } else {
                        1int
                    })
                    &&& final(self).shader_storage_cache.pages@.len() == old(self).shader_storage_cache.pages@.len() + (if old(self).shader_storage_cache.has_fit(
                        required_size,
                        16,
                    ) {
                        0int
                    } else {
                        1int
                    })
                    &&& crate::memory::carved_from(
                        old(self).staging_buffer_cache,
                        final(self).staging_buffer_cache,
                        final(self).ptr_work.mapped_memory_cache_shader_storage@[addr].base.staging,
                    )
                    &&& crate::memory::carved_from(
                        old(self).shader_storage_cache,
                        final(self).shader_storage_cache,
                        final(self).ptr_work.mapped_memory_cache_shader_storage@[addr].base.device,
                    )
                },
                Err(e) => {
                    &&& e == BufferAllocationError::OutOfMemory
                    &&& final(self).ptr_work.mapped_memory_cache_shader_storage@ == old(self).ptr_work.mapped_memory_cache_shader_storage@
                    &&& crate::memory::free_ranges_preserved(
                        old(self).staging_buffer_cache,
                        final(self).staging_buffer_cache,
                    )
                    &&& final(self).shader_storage_cache == old(self).shader_storage_cache
                },
            },
            final(self).ptr_work.mapped_memory_cache@ == old(self).ptr_work.mapped_memory_cache@,
            final(self).ptr_work.mapped_memory_cache_image@ == old(self).ptr_work.mapped_memory_cache_image@,
            old(self).staging_buffer_cache.has_fit(
                required_size,
                spec_staging_align(old(self).limits),
            ) && old(self).shader_storage_cache.has_fit(required_size, 16) ==> r is Ok,
            old(self).mem.window_fits(
                2 * page_size_for(BUFFER_PAGE_SIZE, required_size) + ALIGN_GRANULARITY,
            ) ==> r is Ok,
    {
        self.get_staging_buffer_for_mem_alloc_impl(required_size, true)
    }

    /// Whether a buffer allocation is registered under `mem`.
    pub fn mem_block_exists(&self, mem: u64) -> (r: bool)
        ensures
            r == self.spec_mem_block_exists(mem),
    {
        self.ptr_work.mapped_memory_cache.contains_key(&mem)
    }

    /// Whether a shader-storage allocation is registered under `mem`.
    pub fn mem_block_shader_storage_exists(&self, mem: u64) -> (r: bool)
        ensures
            r == self.spec_mem_block_shader_storage_exists(mem),
    {
        self.ptr_work.mapped_memory_cache_shader_storage.contains_key(&mem)
    }

    /// Whether an image allocation is registered under `mem`.
    pub fn mem_block_image_exists(&self, mem: u64) -> (r: bool)
        ensures
            r == self.spec_mem_block_image_exists(mem),
    {
        self.ptr_work.mapped_memory_cache_image.contains_key(&mem)
    }

    /// Unregisters the entry under `mem` and returns the staging and device
    /// blocks of its kind to their page caches. Freeing an address that no
    /// registry holds would corrupt an unrelated live allocation, so it is
    /// excluded up front.
    pub fn free_mem_raw(&mut self, mem: u64)
        requires
            old(self).wf(),
            old(self).spec_mem_block_exists(mem) || old(self).spec_mem_block_shader_storage_exists(mem) || old(self).spec_mem_block_image_exists(
                mem,
            ),
        ensures
            final(self).wf(),
            final(self).limits == old(self).limits,
            !final(self).spec_mem_block_exists(mem),
            !final(self).spec_mem_block_shader_storage_exists(mem),
            !final(self).spec_mem_block_image_exists(mem),
            forall|p: u64|
                p != mem ==> #[trigger] final(self).spec_mem_block_exists(p) == old(self).spec_mem_block_exists(p),
            forall|p: u64|
                p != mem ==> #[trigger] final(self).spec_mem_block_shader_storage_exists(p) == old(self).spec_mem_block_shader_storage_exists(p),
            forall|p: u64|
                p != mem ==> #[trigger] final(self).spec_mem_block_image_exists(p) == old(self).spec_mem_block_image_exists(p),
            // exactly the entry under `mem` is removed from its registry
            old(self).spec_mem_block_exists(mem) ==> {
                &&& final(self).ptr_work.mapped_memory_cache@ == old(self).ptr_work.mapped_memory_cache@.remove(mem)
                &&& final(self).ptr_work.mapped_memory_cache_shader_storage@ == old(self).ptr_work.mapped_memory_cache_shader_storage@
                &&& final(self).ptr_work.mapped_memory_cache_image@ == old(self).ptr_work.mapped_memory_cache_image@
            },
            old(self).spec_mem_block_shader_storage_exists(mem) ==> {
                &&& final(self).ptr_work.mapped_memory_cache_shader_storage@ == old(self).ptr_work.mapped_memory_cache_shader_storage@.remove(mem)
                &&& final(self).ptr_work.mapped_memory_cache@ == old(self).ptr_work.mapped_memory_cache@
                &&& final(self).ptr_work.mapped_memory_cache_image@ == old(self).ptr_work.mapped_memory_cache_image@
            },
            old(self).spec_mem_block_image_exists(mem) ==> {
                &&& final(self).ptr_work.mapped_memory_cache_image@ == old(self).ptr_work.mapped_memory_cache_image@.remove(mem)
                &&& final(self).ptr_work.mapped_memory_cache@ == old(self).ptr_work.mapped_memory_cache@
                &&& final(self).ptr_work.mapped_memory_cache_shader_storage@ == old(self).ptr_work.mapped_memory_cache_shader_storage@
            },
            // the freed entry's ranges are back on their pages' free lists
            // (the pages of the buffer caches are never dropped; an image
            // entry's device page may have been purged meanwhile)
            old(self).spec_mem_block_exists(mem) ==> {
                let e = old(self).ptr_work.mapped_memory_cache@[mem];
                &&& blocks_range_freed(final(self).staging_buffer_cache, e.staging)
                &&& blocks_range_freed(final(self).vertex_buffer_cache, e.device)
                &&& crate::memory::page_resident(final(self).staging_buffer_cache, e.staging)
                &&& crate::memory::page_resident(final(self).vertex_buffer_cache, e.device)
            },
            old(self).spec_mem_block_shader_storage_exists(mem) ==> {
                let e = old(self).ptr_work.mapped_memory_cache_shader_storage@[mem];
                &&& blocks_range_freed(final(self).staging_buffer_cache, e.base.staging)
                &&& blocks_range_freed(final(self).shader_storage_cache, e.base.device)
                &&& crate::memory::page_resident(final(self).staging_buffer_cache, e.base.staging)
                &&& crate::memory::page_resident(final(self).shader_storage_cache, e.base.device)
            },
            old(self).spec_mem_block_image_exists(mem) ==> {
                let e = old(self).ptr_work.mapped_memory_cache_image@[mem];
                &&& blocks_range_freed(final(self).staging_buffer_cache_image, e.staging)
                &&& crate::memory::page_resident(final(self).staging_buffer_cache_image, e.staging)
            },
            // freeing returns blocks; it never creates or destroys pages
            final(self).staging_buffer_cache.pages@.len() == old(self).staging_buffer_cache.pages@.len(),
            final(self).staging_buffer_cache_image.pages@.len() == old(self).staging_buffer_cache_image.pages@.len(),
            final(self).vertex_buffer_cache.pages@.len() == old(self).vertex_buffer_cache.pages@.len(),
            final(self).shader_storage_cache.pages@.len() == old(self).shader_storage_cache.pages@.len(),
            final(self).image_buffer_caches@.len() == old(self).image_buffer_caches@.len(),
    {
        let ghost s0 = *self;
        proof {
            // the registries never share a key: two entries under one
            // address would hold overlapping staging blocks
            assert forall|t1x: int, t2x: int|
                t1x != t2x && s0.is_live(t1x, mem, 0) implies !s0.is_live(t2x, mem, 0) by {
                if s0.is_live(t1x, mem, 0) && s0.is_live(t2x, mem, 0) {
                    let bx = s0.live_block(t1x, mem, 0);
                    let by = s0.live_block(t2x, mem, 0);
                    assert(bx.addr_spec() == mem && by.addr_spec() == mem);
                    assert(bx.wf() && by.wf());
                    assert(i_disjoint(
                        bx.offset as int,
                        bx.size as int,
                        by.offset as int,
                        by.size as int,
                    ));
                    assert(false);
                }
            }
        }
        let res = self.ptr_work.mapped_memory_cache.remove(&mem);
        match res {
            Some(entry) => {
                proof {
                    assert(s0.is_live(kind_buffer(), mem, 0));
                    assert(!s0.is_live(kind_shader_storage(), mem, 0));
                    assert(!s0.is_live(kind_image(), mem, 0));
                    VulkanAllocator::lemma_remove_entry(s0, *self, kind_buffer(), mem);
                    assert(s0.block_ok(entry.staging) && s0.block_ok(entry.device)) by {
                        assert(entry.staging == s0.live_block(kind_buffer(), mem, 0));
                        assert(entry.device == s0.live_block(kind_buffer(), mem, 1));
                    }
                }
                self.release_pair(
                    Ghost(s0),
                    Ghost(kind_buffer()),
                    Ghost(mem),
                    &entry.staging,
                    &entry.device,
                    false,
                );
                proof {
                    let j1 = choose|j: int|
                        0 <= j < s0.staging_buffer_cache.pages@.len() && (
                        #[trigger] s0.staging_buffer_cache.pages@[j]).base
                            == entry.staging.page_base;
                    assert(self.staging_buffer_cache.pages@[j1].base == entry.staging.page_base);
                    let j2 = choose|j: int|
                        0 <= j < s0.vertex_buffer_cache.pages@.len() && (
                        #[trigger] s0.vertex_buffer_cache.pages@[j]).base
                            == entry.device.page_base;
                    assert(self.vertex_buffer_cache.pages@[j2].base == entry.device.page_base);
                }
            },
            None => {
                proof {
                    assert(self.ptr_work.mapped_memory_cache@ =~= s0.ptr_work.mapped_memory_cache@);
                }
                let res2 = self.ptr_work.mapped_memory_cache_shader_storage.remove(&mem);
                match res2 {
                    Some(entry) => {
                        proof {
                            assert(s0.is_live(kind_shader_storage(), mem, 0));
                            assert(!s0.is_live(kind_image(), mem, 0));
                            VulkanAllocator::lemma_remove_entry(
                                s0,
                                *self,
                                kind_shader_storage(),
                                mem,
                            );
                            assert(s0.block_ok(entry.base.staging) && s0.block_ok(
                                entry.base.device,
                            )) by {
                                assert(entry.base.staging == s0.live_block(
                                    kind_shader_storage(),
                                    mem,
                                    0,
                                ));
                                assert(entry.base.device == s0.live_block(
                                    kind_shader_storage(),
                                    mem,
                                    1,
                                ));
                            }
                        }
                        self.release_pair(
                            Ghost(s0),
                            Ghost(kind_shader_storage()),
                            Ghost(mem),
                            &entry.base.staging,
                            &entry.base.device,
                            true,
                        );
                        proof {
                            let j1 = choose|j: int|
                                0 <= j < s0.staging_buffer_cache.pages@.len() && (
                                #[trigger] s0.staging_buffer_cache.pages@[j]).base
                                    == entry.base.staging.page_base;
                            assert(self.staging_buffer_cache.pages@[j1].base
                                == entry.base.staging.page_base);
                            let j2 = choose|j: int|
                                0 <= j < s0.shader_storage_cache.pages@.len() && (
                                #[trigger] s0.shader_storage_cache.pages@[j]).base
                                    == entry.base.device.page_base;
                            assert(self.shader_storage_cache.pages@[j2].base
                                == entry.base.device.page_base);
                        }
                    },
                    None => {
                        proof {
                            assert(self.ptr_work.mapped_memory_cache_shader_storage@
                                =~= s0.ptr_work.mapped_memory_cache_shader_storage@);
                        }
                        let res3 = self.ptr_work.mapped_memory_cache_image.remove(&mem);
                        match res3 {
                            Some(entry) => {
                                proof {
                                    VulkanAllocator::lemma_remove_entry(
                                        s0,
                                        *self,
                                        kind_image(),
                                        mem,
                                    );
                                    assert(s0.block_ok(entry.staging) && s0.block_ok(
                                        entry.img_mem.base,
                                    )) by {
                                        assert(entry.staging == s0.live_block(kind_image(), mem, 0));
                                        assert(entry.img_mem.base == s0.live_block(
                                            kind_image(),
                                            mem,
                                            1,
                                        ));
                                    }
                                }
                                self.release_image_pair(
                                    Ghost(s0),
                                    Ghost(mem),
                                    &entry.staging,
                                    &entry.img_mem.base,
                                );
                                proof {
                                    let j1 = choose|j: int|
                                        0 <= j < s0.staging_buffer_cache_image.pages@.len() && (
                                        #[trigger] s0.staging_buffer_cache_image.pages@[j]).base
                                            == entry.staging.page_base;
                                    assert(self.staging_buffer_cache_image.pages@[j1].base
                                        == entry.staging.page_base);
                                }
                            },
                            None => {
                                proof {
                                    assert(false);
                                }
                            },
                        }
                    },
                }
            },
        }
    }

    /// Returns a just-unregistered staging/device pair to the buffer
    /// caches. `s0` is the state before the entry under `key` in registry
    /// `t` was removed; `self` is the state right after.
    fn release_pair(
        &mut self,
        Ghost(s0): Ghost<VulkanAllocator>,
        Ghost(t): Ghost<int>,
        Ghost(key): Ghost<u64>,
        staging: &MemoryBlock,
        device: &MemoryBlock,
        shader_storage: bool,
    )
        requires
            old(self).wf(),
            s0.wf(),
            t == kind_buffer() || t == kind_shader_storage(),
            s0.is_live(t, key, 0),
            *staging == s0.live_block(t, key, 0),
            *device == s0.live_block(t, key, 1),
            old(self).block_ok(*staging),
            old(self).block_ok(*device),
            staging.wf(),
            device.wf(),
            // live entries of the current state are the remaining ones of s0
            forall|t2: int, k2: u64, sx: int|
                #[trigger] old(self).is_live(t2, k2, sx) ==> s0.is_live(t2, k2, sx) && old(self).live_block(t2, k2, sx) == s0.live_block(t2, k2, sx) && !(t2 == t && k2 == key),
        ensures
            final(self).wf(),
            final(self).limits == old(self).limits,
            final(self).ptr_work.mapped_memory_cache@ == old(self).ptr_work.mapped_memory_cache@,
            final(self).ptr_work.mapped_memory_cache_shader_storage@ == old(self).ptr_work.mapped_memory_cache_shader_storage@,
            final(self).ptr_work.mapped_memory_cache_image@ == old(self).ptr_work.mapped_memory_cache_image@,
            final(self).staging_buffer_cache.pages@.len() == old(self).staging_buffer_cache.pages@.len(),
            final(self).staging_buffer_cache_image.pages@.len() == old(self).staging_buffer_cache_image.pages@.len(),
            final(self).vertex_buffer_cache.pages@.len() == old(self).vertex_buffer_cache.pages@.len(),
            final(self).shader_storage_cache.pages@.len() == old(self).shader_storage_cache.pages@.len(),
            final(self).image_buffer_caches@ == old(self).image_buffer_caches@,
            blocks_range_freed(final(self).staging_buffer_cache, *staging),
            !shader_storage ==> blocks_range_freed(final(self).vertex_buffer_cache, *device),
            shader_storage ==> blocks_range_freed(final(self).shader_storage_cache, *device),
            forall|j: int|
                0 <= j < old(self).staging_buffer_cache.pages@.len() ==> (#[trigger] final(self).staging_buffer_cache.pages@[j]).base == old(self).staging_buffer_cache.pages@[j].base,
            forall|j: int|
                0 <= j < old(self).vertex_buffer_cache.pages@.len() ==> (#[trigger] final(self).vertex_buffer_cache.pages@[j]).base == old(self).vertex_buffer_cache.pages@[j].base,
            forall|j: int|
                0 <= j < old(self).shader_storage_cache.pages@.len() ==> (#[trigger] final(self).shader_storage_cache.pages@[j]).base == old(self).shader_storage_cache.pages@[j].base,
    {
        let ghost s_r = *self;
        proof {
            VulkanAllocator::lemma_release_pre(s_r, 0, *staging);
            assert(s_r.cache_at(0) == s_r.staging_buffer_cache);
            assert forall|t2: int, k2: u64, sx: int| s_r.is_live(t2, k2, sx) implies i_disjoint(
                (#[trigger] s_r.live_block(t2, k2, sx)).offset as int,
                s_r.live_block(t2, k2, sx).size as int,
                staging.offset as int,
                staging.size as int,
            ) by {
                assert(s0.is_live(t2, k2, sx));
            }
        }
        self.staging_buffer_cache.release(staging);
        proof {
            VulkanAllocator::lemma_release_preserves(s_r, *self, 0, *staging);
        }
        let ghost s_f1 = *self;
        let ghost ib: int = if shader_storage {
            3int
        } else {
            2int
        };
        proof {
            // the device block stays ok after the staging release: the two
            // blocks of one entry never overlap
            assert(i_disjoint(
                device.offset as int,
                device.size as int,
                staging.offset as int,
                staging.size as int,
            )) by {
                assert(s0.is_live(t, key, 0) && s0.is_live(t, key, 1));
            }
            assert(s_f1.block_ok(*device));
            VulkanAllocator::lemma_release_pre(s_f1, ib, *device);
            assert(s_f1.cache_at(ib) == if shader_storage {
                s_f1.shader_storage_cache
            } else {
                s_f1.vertex_buffer_cache
            });
            assert forall|t2: int, k2: u64, sx: int| s_f1.is_live(t2, k2, sx) implies i_disjoint(
                (#[trigger] s_f1.live_block(t2, k2, sx)).offset as int,
                s_f1.live_block(t2, k2, sx).size as int,
                device.offset as int,
                device.size as int,
            ) by {
                assert(s_f1.is_live(t2, k2, sx) == s_r.is_live(t2, k2, sx));
                assert(s_f1.live_block(t2, k2, sx) == s_r.live_block(t2, k2, sx));
                assert(s0.is_live(t2, k2, sx));
            }
        }
        if shader_storage {
            self.shader_storage_cache.release(device);
        } else {
            self.vertex_buffer_cache.release(device);
        }
        proof {
            VulkanAllocator::lemma_release_preserves(s_f1, *self, ib, *device);
            // the released ranges sit at the end of their pages' free lists
            assert forall|j: int|
                0 <= j < final(self).staging_buffer_cache.pages@.len() && (#[trigger] final(self).staging_buffer_cache.pages@[j]).base == staging.page_base implies exists|m: int|
                0 <= m < final(self).staging_buffer_cache.pages@[j].free@.len() && (
                #[trigger] final(self).staging_buffer_cache.pages@[j].free@[m]) == (
                staging.offset,
                staging.size,
            ) by {
                assert(s_r.staging_buffer_cache.pages@[j].base == staging.page_base);
                assert(s_f1.staging_buffer_cache.pages@[j].free@
                    == s_r.staging_buffer_cache.pages@[j].free@.push(
                    (staging.offset, staging.size),
                ));
                let m0 = s_f1.staging_buffer_cache.pages@[j].free@.len() - 1;
                assert(final(self).staging_buffer_cache.pages@[j].free@[m0] == (
                    staging.offset,
                    staging.size,
                ));
            }
            let ghost dcache = if shader_storage {
                final(self).shader_storage_cache
            } else {
                final(self).vertex_buffer_cache
            };
            assert forall|j: int|
                0 <= j < dcache.pages@.len() && (#[trigger] dcache.pages@[j]).base
                    == device.page_base implies exists|m: int|
                0 <= m < dcache.pages@[j].free@.len() && (#[trigger] dcache.pages@[j].free@[m])
                    == (device.offset, device.size) by {
                let ghost dc1 = if shader_storage {
                    s_f1.shader_storage_cache
                } else {
                    s_f1.vertex_buffer_cache
                };
                assert(dc1.pages@[j].base == device.page_base);
                assert(dcache.pages@[j].free@ == dc1.pages@[j].free@.push(
                    (device.offset, device.size),
                ));
                let m0 = dcache.pages@[j].free@.len() - 1;
                assert(dcache.pages@[j].free@[m0] == (device.offset, device.size));
            }
        }
    }
}

} // verus!

verus! {

impl VulkanAllocator {
    /// Returns a just-unregistered image entry's staging block and device
    /// image memory to their caches. If the image cache that owned the
    /// memory was purged meanwhile, the memory died with it.
    fn release_image_pair(
        &mut self,
        Ghost(s0): Ghost<VulkanAllocator>,
        Ghost(key): Ghost<u64>,
        staging: &MemoryBlock,
        device: &MemoryBlock,
    )
        requires
            old(self).wf(),
            s0.wf(),
            s0.is_live(kind_image(), key, 0),
            *staging == s0.live_block(kind_image(), key, 0),
            *device == s0.live_block(kind_image(), key, 1),
            old(self).block_ok(*staging),
            old(self).block_ok(*device),
            staging.wf(),
            device.wf(),
            forall|t2: int, k2: u64, sx: int|
                #[trigger] old(self).is_live(t2, k2, sx) ==> s0.is_live(t2, k2, sx) && old(self).live_block(t2, k2, sx) == s0.live_block(t2, k2, sx) && !(t2 == kind_image() && k2
                    == key),
        ensures
            final(self).wf(),
            final(self).limits == old(self).limits,
            final(self).ptr_work.mapped_memory_cache@ == old(self).ptr_work.mapped_memory_cache@,
            final(self).ptr_work.mapped_memory_cache_shader_storage@ == old(self).ptr_work.mapped_memory_cache_shader_storage@,
            final(self).ptr_work.mapped_memory_cache_image@ == old(self).ptr_work.mapped_memory_cache_image@,
            final(self).staging_buffer_cache.pages@.len() == old(self).staging_buffer_cache.pages@.len(),
            final(self).staging_buffer_cache_image.pages@.len() == old(self).staging_buffer_cache_image.pages@.len(),
            final(self).vertex_buffer_cache.pages@.len() == old(self).vertex_buffer_cache.pages@.len(),
            final(self).shader_storage_cache.pages@.len() == old(self).shader_storage_cache.pages@.len(),
            final(self).image_buffer_caches@.len() == old(self).image_buffer_caches@.len(),
            blocks_range_freed(final(self).staging_buffer_cache_image, *staging),
            forall|j: int|
                0 <= j < old(self).staging_buffer_cache_image.pages@.len() ==> (#[trigger] final(self).staging_buffer_cache_image.pages@[j]).base == old(self).staging_buffer_cache_image.pages@[j].base,
    {
        let ghost s_r = *self;
        proof {
            VulkanAllocator::lemma_release_pre(s_r, 1, *staging);
            assert(s_r.cache_at(1) == s_r.staging_buffer_cache_image);
            assert forall|t2: int, k2: u64, sx: int| s_r.is_live(t2, k2, sx) implies i_disjoint(
                (#[trigger] s_r.live_block(t2, k2, sx)).offset as int,
                s_r.live_block(t2, k2, sx).size as int,
                staging.offset as int,
                staging.size as int,
            ) by {
                assert(s0.is_live(t2, k2, sx));
            }
        }
        self.staging_buffer_cache_image.release(staging);
        proof {
            VulkanAllocator::lemma_release_preserves(s_r, *self, 1, *staging);
            assert forall|j: int|
                0 <= j < self.staging_buffer_cache_image.pages@.len() && (
                #[trigger] self.staging_buffer_cache_image.pages@[j]).base == staging.page_base
                implies exists|m: int|
                0 <= m < self.staging_buffer_cache_image.pages@[j].free@.len() && (
                #[trigger] self.staging_buffer_cache_image.pages@[j].free@[m]) == (
                staging.offset,
                staging.size,
            ) by {
                assert(s_r.staging_buffer_cache_image.pages@[j].base == staging.page_base);
                assert(self.staging_buffer_cache_image.pages@[j].free@
                    == s_r.staging_buffer_cache_image.pages@[j].free@.push(
                    (staging.offset, staging.size),
                ));
                let m0 = self.staging_buffer_cache_image.pages@[j].free@.len() - 1;
                assert(self.staging_buffer_cache_image.pages@[j].free@[m0] == (
                    staging.offset,
                    staging.size,
                ));
            }
            assert(blocks_range_freed(self.staging_buffer_cache_image, *staging));
        }
        let ghost s_f1 = *self;
        proof {
            assert(i_disjoint(
                device.offset as int,
                device.size as int,
                staging.offset as int,
                staging.size as int,
            )) by {
                assert(s0.is_live(kind_image(), key, 0) && s0.is_live(kind_image(), key, 1));
            }
            assert(s_f1.block_ok(*device));
        }
        proof {
            assert forall|t2: int, k2: u64, sx: int| s_f1.is_live(t2, k2, sx) implies i_disjoint(
                (#[trigger] s_f1.live_block(t2, k2, sx)).offset as int,
                s_f1.live_block(t2, k2, sx).size as int,
                device.offset as int,
                device.size as int,
            ) by {
                assert(s_r.is_live(t2, k2, sx) == s_f1.is_live(t2, k2, sx));
                assert(s_r.live_block(t2, k2, sx) == s_f1.live_block(t2, k2, sx));
                assert(s0.is_live(t2, k2, sx));
            }
        }
        let n = self.image_buffer_caches.len();
        let mut x: usize = 0;
        while x < n
            invariant
                *self == s_f1,
                n == s_f1.image_buffer_caches@.len(),
                x <= n,
                s_f1.wf(),
                device.wf(),
                s_f1.block_ok(*device),
                s_f1.limits == old(self).limits,
                s_f1.ptr_work.mapped_memory_cache@ == old(self).ptr_work.mapped_memory_cache@,
                s_f1.ptr_work.mapped_memory_cache_shader_storage@ == old(self).ptr_work.mapped_memory_cache_shader_storage@,
                s_f1.ptr_work.mapped_memory_cache_image@ == old(self).ptr_work.mapped_memory_cache_image@,
                s_f1.staging_buffer_cache.pages@.len() == old(self).staging_buffer_cache.pages@.len(),
                s_f1.staging_buffer_cache_image.pages@.len() == old(self).staging_buffer_cache_image.pages@.len(),
                s_f1.vertex_buffer_cache.pages@.len() == old(self).vertex_buffer_cache.pages@.len(),
                s_f1.shader_storage_cache.pages@.len() == old(self).shader_storage_cache.pages@.len(),
                s_f1.image_buffer_caches@.len() == old(self).image_buffer_caches@.len(),
                blocks_range_freed(s_f1.staging_buffer_cache_image, *staging),
                forall|j: int|
                    0 <= j < old(self).staging_buffer_cache_image.pages@.len() ==> (
                    #[trigger] s_f1.staging_buffer_cache_image.pages@[j]).base == old(
                        self,
                    ).staging_buffer_cache_image.pages@[j].base,
                forall|t2: int, k2: u64, sx: int|
                    s_f1.is_live(t2, k2, sx) ==> i_disjoint(
                        (#[trigger] s_f1.live_block(t2, k2, sx)).offset as int,
                        s_f1.live_block(t2, k2, sx).size as int,
                        device.offset as int,
                        device.size as int,
                    ),
            decreases n - x,
        {
            if self.image_buffer_caches[x].1.has_page_with_base(device.page_base) {
                let ghost ia: int = 4 + x as int;
                proof {
                    VulkanAllocator::lemma_release_pre(s_f1, ia, *device);
                    assert(s_f1.cache_at(ia) == s_f1.image_buffer_caches@[x as int].1);
                }
                let mut c = self.image_buffer_caches.remove(x);
                c.1.release(device);
                self.image_buffer_caches.insert(x, c);
                proof {
                    assert(self.image_buffer_caches@ =~= s_f1.image_buffer_caches@.update(
                        x as int,
                        self.image_buffer_caches@[x as int],
                    ));
                    assert(self.image_buffer_caches@[x as int].1 == c.1);
                    assert forall|i: int|
                        0 <= i < s_f1.n_caches() && i != ia implies #[trigger] self.cache_at(i)
                        == s_f1.cache_at(i) by {}
                    VulkanAllocator::lemma_release_preserves(s_f1, *self, ia, *device);
                }
                return ;
            }
            x += 1;
        }
        // no current image cache owns the memory's page: it was purged, and
        // the window is never reissued, so dropping the range is safe
    }
}

} // verus!

verus! {

/// If `(m-1)*d < n <= m*d`, then `m` is the ceiling of `n / d`.
proof fn lemma_ceil_div(n: int, d: int, m: int)
    requires
        1 <= d,
        1 <= m,
        (m - 1) * d < n,
        n <= m * d,
    ensures
        m == (n + d - 1) / d,
{
    assert(0 <= n + d - 1 - m * d < d) by (nonlinear_arith)
        requires
            1 <= d,
            (m - 1) * d < n,
            n <= m * d,
    ;
    vstd::arithmetic::div_mod::lemma_fundamental_div_mod_converse_div(
        n + d - 1,
        d,
        m,
        n + d - 1 - m * d,
    );
}

impl VulkanAllocator {
    /// Appends one fixed-capacity descriptor pool to the group.
    pub fn allocate_descriptor_pool(
        descriptor_pools: &mut DeviceDescriptorPools,
        alloc_pool_size: usize,
    )
        requires
            old(descriptor_pools).wf(),
            1 <= alloc_pool_size <= crate::descriptors::MAX_POOL_CAPACITY,
        ensures
            final(descriptor_pools).wf(),
            final(descriptor_pools).default_alloc_size == old(descriptor_pools).default_alloc_size,
            final(descriptor_pools).pool_ty == old(descriptor_pools).pool_ty,
            final(descriptor_pools).pools@ == old(descriptor_pools).pools@.push(
                DescriptorPool { size: alloc_pool_size as u64, cur_size: 0 },
            ),
    {
        descriptor_pools.pools.push(DescriptorPool { size: alloc_pool_size as u64, cur_size: 0 });
    }

    /// Greedily draws `set_count` descriptor sets from the group's pools,
    /// appending pools of the default capacity whenever nothing has room.
    /// The returned groups cover exactly `set_count` sets; starting from an
    /// empty group, exactly `ceil(set_count / default_alloc_size)` pools are
    /// created.
    pub fn get_descriptor_pool_for_alloc(
        descriptor_pools: &mut DeviceDescriptorPools,
        set_count: usize,
        layout: &DescriptorSetLayout,
    ) -> (r: Vec<DescriptorSets>)
        requires
            old(descriptor_pools).wf(),
            set_count <= crate::descriptors::MAX_POOL_CAPACITY,
        ensures
            final(descriptor_pools).wf(),
            final(descriptor_pools).default_alloc_size == old(descriptor_pools).default_alloc_size,
            final(descriptor_pools).pool_ty == old(descriptor_pools).pool_ty,
            sum_set_counts(r@) == set_count,
            forall|i: int|
                0 <= i < r@.len() ==> 1 <= (#[trigger] r@[i]).set_count && r@[i].pool_index < final(descriptor_pools).pools@.len() && r@[i].binding is None,
            // the walk is greedy: it never returns to an earlier pool
            forall|i1: int, i2: int|
                0 <= i1 < i2 < r@.len() ==> (#[trigger] r@[i1]).pool_index < (
                #[trigger] r@[i2]).pool_index,
            final(descriptor_pools).pools@.len() >= old(descriptor_pools).pools@.len(),
            forall|i: int|
                0 <= i < old(descriptor_pools).pools@.len() ==> (#[trigger] final(descriptor_pools).pools@[i]).size == old(descriptor_pools).pools@[i].size && final(descriptor_pools).pools@[i].cur_size >= old(descriptor_pools).pools@[i].cur_size,
            forall|i: int|
                old(descriptor_pools).pools@.len() <= i < final(descriptor_pools).pools@.len()
                    ==> (#[trigger] final(descriptor_pools).pools@[i]).size == old(descriptor_pools).default_alloc_size,
            old(descriptor_pools).all_full() && set_count > 0 ==> final(descriptor_pools).pools@.len() == old(descriptor_pools).pools@.len() + (set_count + old(descriptor_pools).default_alloc_size - 1) as int / old(descriptor_pools).default_alloc_size as int,
    {
        let ghost d0 = *old(descriptor_pools);
        let ghost dflt = d0.default_alloc_size as int;
        let ghost base = d0.pools@.len() as int;
        let ghost old_full = d0.all_full();
        let mut cur_alloc_num: usize = set_count;
        let mut res: Vec<DescriptorSets> = Vec::new();
        let mut pool_index_offset: usize = 0;
        while cur_alloc_num > 0
            invariant
                descriptor_pools.wf(),
                descriptor_pools.default_alloc_size == d0.default_alloc_size,
                descriptor_pools.pool_ty == d0.pool_ty,
                d0.wf(),
                dflt == d0.default_alloc_size as int,
                old_full == d0.all_full(),
                base == d0.pools@.len() as int,
                set_count <= crate::descriptors::MAX_POOL_CAPACITY,
                cur_alloc_num <= set_count,
                pool_index_offset <= descriptor_pools.pools@.len(),
                sum_set_counts(res@) == set_count - cur_alloc_num,
                forall|i: int|
                    0 <= i < res@.len() ==> 1 <= (#[trigger] res@[i]).set_count && res@[i].pool_index
                        < descriptor_pools.pools@.len() && res@[i].binding is None,
                forall|i: int|
                    0 <= i < res@.len() ==> (#[trigger] res@[i]).pool_index < pool_index_offset,
                forall|i1: int, i2: int|
                    0 <= i1 < i2 < res@.len() ==> (#[trigger] res@[i1]).pool_index < (
                    #[trigger] res@[i2]).pool_index,
                descriptor_pools.pools@.len() >= d0.pools@.len(),
                forall|i: int|
                    0 <= i < d0.pools@.len() ==> (#[trigger] descriptor_pools.pools@[i]).size
                        == d0.pools@[i].size && descriptor_pools.pools@[i].cur_size
                        >= d0.pools@[i].cur_size,
                forall|i: int|
                    d0.pools@.len() <= i < descriptor_pools.pools@.len() ==> (
                    #[trigger] descriptor_pools.pools@[i]).size == d0.default_alloc_size,
                old_full ==> forall|i: int|
                    0 <= i < base ==> (#[trigger] descriptor_pools.pools@[i]).cur_size
                        == descriptor_pools.pools@[i].size,
                old_full ==> (pool_index_offset == 0 && descriptor_pools.pools@.len() == base) || (
                pool_index_offset as int == descriptor_pools.pools@.len()),
                old_full && set_count > 0 && descriptor_pools.pools@.len() > base ==> set_count > (
                descriptor_pools.pools@.len() - base - 1) * dflt,
                old_full ==> cur_alloc_num as int == (if set_count - (descriptor_pools.pools@.len()
                    - base) * dflt > 0 {
                    set_count - (descriptor_pools.pools@.len() - base) * dflt
                } else {
                    0int
                }),
            decreases cur_alloc_num,
        {
            let mut allocated_in_this_run: usize = 0;
            let mut found: bool = false;
            let mut descriptor_pool_index: usize = 0;
            let mut i: usize = pool_index_offset;
            while i < descriptor_pools.pools.len()
                invariant_except_break
                    !found,
                invariant
                    descriptor_pools.wf(),
                    pool_index_offset <= i,
                    i <= descriptor_pools.pools@.len(),
                    cur_alloc_num <= crate::descriptors::MAX_POOL_CAPACITY,
                    1 <= cur_alloc_num,
                ensures
                    descriptor_pools.wf(),
                    1 <= cur_alloc_num,
                    found ==> {
                        &&& pool_index_offset <= descriptor_pool_index
                            < descriptor_pools.pools@.len()
                        &&& 1 <= allocated_in_this_run <= cur_alloc_num
                        &&& descriptor_pools.pools@[descriptor_pool_index as int].cur_size
                            + allocated_in_this_run
                            <= descriptor_pools.pools@[descriptor_pool_index as int].size
                    },
                decreases descriptor_pools.pools@.len() - i,
            {
                let psize = descriptor_pools.pools[i].size;
                let cur = descriptor_pools.pools[i].cur_size;
                if cur + (cur_alloc_num as u64) < psize {
                    allocated_in_this_run = cur_alloc_num;
                    found = true;
                    descriptor_pool_index = i;
                    break ;
                } else {
                    let remaining_pool_count = psize - cur;
                    if remaining_pool_count > 0 {
                        allocated_in_this_run = remaining_pool_count as usize;
                        found = true;
                        descriptor_pool_index = i;
                        break ;
                    }
                }
                i += 1;
            }
            proof {
                // with every pre-existing pool full, the search never finds
                // room: a fresh pool is created each round
                if old_full && found {
                    assert(pool_index_offset <= descriptor_pool_index
                        < descriptor_pools.pools@.len());
                    if pool_index_offset == 0 && descriptor_pools.pools@.len() == base {
                        assert(descriptor_pools.pools@[descriptor_pool_index as int].cur_size
                            == descriptor_pools.pools@[descriptor_pool_index as int].size);
                        assert(false);
                    } else {
                        assert(pool_index_offset as int == descriptor_pools.pools@.len());
                        assert(false);
                    }
                }
            }
            if !found {
                descriptor_pool_index = descriptor_pools.pools.len();
                let default_alloc_size = descriptor_pools.default_alloc_size as usize;
                Self::allocate_descriptor_pool(descriptor_pools, default_alloc_size);
                allocated_in_this_run = if default_alloc_size < cur_alloc_num {
                    default_alloc_size
                } else {
                    cur_alloc_num
                };
            }
            let ghost pools_before = descriptor_pools.pools@;
            let pi = descriptor_pool_index;
            let new_count = descriptor_pools.pools[pi].cur_size + (allocated_in_this_run as u64);
            descriptor_pools.pools[pi].cur_size = new_count;
            proof {
                assert(descriptor_pools.pools@ == pools_before.update(
                    pi as int,
                    descriptor_pools.pools@[pi as int],
                ));
                lemma_sum_set_counts_push(
                    res@,
                    DescriptorSets {
                        pool_index: pi,
                        set_count: allocated_in_this_run,
                        binding: None,
                    },
                );
            }
            res.push(
                DescriptorSets { pool_index: pi, set_count: allocated_in_this_run, binding: None },
            );
            let plen = descriptor_pools.pools.len();
            proof {
                assert(pi < plen);
            }
            pool_index_offset = pi + 1;
            cur_alloc_num = cur_alloc_num - allocated_in_this_run;
            proof {
                if old_full {
                    assert(descriptor_pools.pools@.len() > base);
                    let cr = descriptor_pools.pools@.len() - base;
                    assert(cr * dflt == (cr - 1) * dflt + dflt) by (nonlinear_arith);
                }
            }
        }
        proof {
            if old_full && set_count > 0 {
                let created = descriptor_pools.pools@.len() - base;
                assert(set_count <= created * dflt);
                assert(created >= 1);
                lemma_ceil_div(set_count as int, dflt, created as int);
            }
        }
        res
    }
}

} // verus!

verus! {

impl VulkanAllocator {
    /// Allocates `set_count` descriptor sets and binds each group to
    /// consecutive regions of `bind_buffer`, starting at `memory_offset`
    /// with `single_buffer_instance_size` bytes per set.
    pub fn create_shader_storage_descriptor_sets(
        descriptor_pools: &mut DeviceDescriptorPools,
        set_layout: &DescriptorSetLayout,
        set_count: usize,
        bind_buffer: &Buffer,
        single_buffer_instance_size: u64,
        memory_offset: u64,
    ) -> (r: Vec<DescriptorSets>)
        requires
            old(descriptor_pools).wf(),
            set_count <= crate::descriptors::MAX_POOL_CAPACITY,
            memory_offset + single_buffer_instance_size * set_count <= u64::MAX,
        ensures
            final(descriptor_pools).wf(),
            final(descriptor_pools).default_alloc_size == old(descriptor_pools).default_alloc_size,
            final(descriptor_pools).pool_ty == old(descriptor_pools).pool_ty,
            sum_set_counts(r@) == set_count,
            final(descriptor_pools).pools@.len() >= old(descriptor_pools).pools@.len(),
            // each group is bound right after its predecessors' regions
            forall|i: int|
                0 <= i < r@.len() ==> {
                    &&& 1 <= (#[trigger] r@[i]).set_count
                    &&& r@[i].pool_index < final(descriptor_pools).pools@.len()
                    &&& r@[i].binding == Some(
                        crate::descriptors::SetBinding {
                            buffer: bind_buffer.handle,
                            offset: (memory_offset + single_buffer_instance_size * sum_set_counts(
                                r@.take(i),
                            )) as u64,
                            instance_size: single_buffer_instance_size,
                        },
                    )
                },
            old(descriptor_pools).all_full() && set_count > 0 ==> final(descriptor_pools).pools@.len() == old(descriptor_pools).pools@.len() + (set_count + old(descriptor_pools).default_alloc_size - 1) as int / old(descriptor_pools).default_alloc_size as int,
    {
        Self::assign_buffer_descriptor_sets(
            descriptor_pools,
            set_layout,
            set_count,
            bind_buffer,
            single_buffer_instance_size,
            memory_offset,
        )
    }

    /// Allocates `set_count` uniform descriptor sets bound to consecutive
    /// regions of `bind_buffer`; the split across pools follows
    /// [`VulkanAllocator::get_descriptor_pool_for_alloc`].
    pub fn create_uniform_descriptor_sets(
        descriptor_pools: &mut DeviceDescriptorPools,
        set_layout: &DescriptorSetLayout,
        set_count: usize,
        bind_buffer: &Buffer,
        single_buffer_instance_size: u64,
        memory_offset: u64,
    ) -> (r: Vec<DescriptorSets>)
        requires
            old(descriptor_pools).wf(),
            set_count <= crate::descriptors::MAX_POOL_CAPACITY,
            memory_offset + single_buffer_instance_size * set_count <= u64::MAX,
        ensures
            final(descriptor_pools).wf(),
            final(descriptor_pools).default_alloc_size == old(descriptor_pools).default_alloc_size,
            final(descriptor_pools).pool_ty == old(descriptor_pools).pool_ty,
            sum_set_counts(r@) == set_count,
            final(descriptor_pools).pools@.len() >= old(descriptor_pools).pools@.len(),
            forall|i: int|
                0 <= i < r@.len() ==> {
                    &&& 1 <= (#[trigger] r@[i]).set_count
                    &&& r@[i].pool_index < final(descriptor_pools).pools@.len()
                    &&& r@[i].binding == Some(
                        crate::descriptors::SetBinding {
                            buffer: bind_buffer.handle,
                            offset: (memory_offset + single_buffer_instance_size * sum_set_counts(
                                r@.take(i),
                            )) as u64,
                            instance_size: single_buffer_instance_size,
                        },
                    )
                },
    {
        Self::assign_buffer_descriptor_sets(
            descriptor_pools,
            set_layout,
            set_count,
            bind_buffer,
            single_buffer_instance_size,
            memory_offset,
        )
    }

    /// The shared allocation-and-binding walk behind the uniform and
    /// shader-storage set constructors.
    fn assign_buffer_descriptor_sets(
        descriptor_pools: &mut DeviceDescriptorPools,
        set_layout: &DescriptorSetLayout,
        set_count: usize,
        bind_buffer: &Buffer,
        single_buffer_instance_size: u64,
        memory_offset: u64,
    ) -> (r: Vec<DescriptorSets>)
        requires
            old(descriptor_pools).wf(),
            set_count <= crate::descriptors::MAX_POOL_CAPACITY,
            memory_offset + single_buffer_instance_size * set_count <= u64::MAX,
        ensures
            final(descriptor_pools).wf(),
            final(descriptor_pools).default_alloc_size == old(descriptor_pools).default_alloc_size,
            final(descriptor_pools).pool_ty == old(descriptor_pools).pool_ty,
            sum_set_counts(r@) == set_count,
            final(descriptor_pools).pools@.len() >= old(descriptor_pools).pools@.len(),
            forall|i: int|
                0 <= i < r@.len() ==> {
                    &&& 1 <= (#[trigger] r@[i]).set_count
                    &&& r@[i].pool_index < final(descriptor_pools).pools@.len()
                    &&& r@[i].binding == Some(
                        crate::descriptors::SetBinding {
                            buffer: bind_buffer.handle,
                            offset: (memory_offset + single_buffer_instance_size * sum_set_counts(
                                r@.take(i),
                            )) as u64,
                            instance_size: single_buffer_instance_size,
                        },
                    )
                },
            old(descriptor_pools).all_full() && set_count > 0 ==> final(descriptor_pools).pools@.len() == old(descriptor_pools).pools@.len() + (set_count + old(descriptor_pools).default_alloc_size - 1) as int / old(descriptor_pools).default_alloc_size as int,
    {
        let mut descriptors = Self::get_descriptor_pool_for_alloc(
            descriptor_pools,
            set_count,
            set_layout,
        );
        let ghost allocated = descriptors@;
        let n = descriptors.len();
        let mut cur_offset: u64 = 0;
        let mut d: usize = 0;
        while d < n
            invariant
                n == descriptors@.len(),
                d <= n,
                descriptors@.len() == allocated.len(),
                sum_set_counts(allocated) == set_count,
                set_count <= crate::descriptors::MAX_POOL_CAPACITY,
                memory_offset + single_buffer_instance_size * set_count <= u64::MAX,
                forall|i: int|
                    0 <= i < allocated.len() ==> 1 <= (#[trigger] allocated[i]).set_count,
                forall|i: int|
                    d <= i < allocated.len() ==> #[trigger] descriptors@[i] == allocated[i],
                forall|i: int|
                    0 <= i < d ==> {
                        &&& (#[trigger] descriptors@[i]).set_count == allocated[i].set_count
                        &&& descriptors@[i].pool_index == allocated[i].pool_index
                        &&& descriptors@[i].binding == Some(
                            crate::descriptors::SetBinding {
                                buffer: bind_buffer.handle,
                                offset: (memory_offset + single_buffer_instance_size
                                    * sum_set_counts(allocated.take(i))) as u64,
                                instance_size: single_buffer_instance_size,
                            },
                        )
                    },
                cur_offset == single_buffer_instance_size * sum_set_counts(allocated.take(d as int)),
            decreases n - d,
        {
            proof {
                crate::descriptors::lemma_sum_take_le(allocated, d as int);
                crate::descriptors::lemma_sum_take_succ(allocated, d as int);
                crate::descriptors::lemma_sum_take_le(allocated, d as int + 1);
                assert(single_buffer_instance_size * sum_set_counts(allocated.take(d as int + 1))
                    <= single_buffer_instance_size * set_count) by (nonlinear_arith)
                    requires
                        sum_set_counts(allocated.take(d as int + 1)) <= set_count,
                        0 <= sum_set_counts(allocated.take(d as int + 1)),
                        0 <= single_buffer_instance_size,
                ;
                assert(single_buffer_instance_size * sum_set_counts(allocated.take(d as int + 1))
                    == single_buffer_instance_size * sum_set_counts(allocated.take(d as int))
                    + single_buffer_instance_size * allocated[d as int].set_count)
                    by (nonlinear_arith)
                    requires
                        sum_set_counts(allocated.take(d as int + 1)) == sum_set_counts(
                            allocated.take(d as int),
                        ) + allocated[d as int].set_count,
                ;
            }
            let this_count = descriptors[d].assign_buffer_to_sets(
                bind_buffer.handle,
                memory_offset + cur_offset,
                single_buffer_instance_size,
            );
            cur_offset = cur_offset + single_buffer_instance_size * (this_count as u64);
            d += 1;
        }
        proof {
            assert(allocated.take(n as int) =~= allocated);
            assert forall|i: int| 0 <= i < descriptors@.len() implies (#[trigger] descriptors@[i]).set_count
                == allocated[i].set_count by {}
            assert(sum_set_counts(descriptors@) == sum_set_counts(allocated)) by {
                VulkanAllocator::lemma_sum_counts_congruent(descriptors@, allocated);
            }
            assert forall|i: int| 0 <= i < descriptors@.len() implies #[trigger] descriptors@[i].binding
                == Some(
                crate::descriptors::SetBinding {
                    buffer: bind_buffer.handle,
                    offset: (memory_offset + single_buffer_instance_size * sum_set_counts(
                        descriptors@.take(i),
                    )) as u64,
                    instance_size: single_buffer_instance_size,
                },
            ) by {
                VulkanAllocator::lemma_sum_counts_congruent(
                    descriptors@.take(i),
                    allocated.take(i),
                );
                assert(descriptors@.take(i).len() == allocated.take(i).len());
            }
        }
        descriptors
    }

    /// Two group sequences with the same counts have the same sum.
    proof fn lemma_sum_counts_congruent(a: Seq<DescriptorSets>, b: Seq<DescriptorSets>)
        requires
            a.len() == b.len(),
            forall|i: int| 0 <= i < a.len() ==> (#[trigger] a[i]).set_count == b[i].set_count,
        ensures
            sum_set_counts(a) == sum_set_counts(b),
        decreases a.len(),
    {
        if a.len() > 0 {
            VulkanAllocator::lemma_sum_counts_congruent(a.drop_last(), b.drop_last());
        }
    }

    /// A layout for one uniform buffer visible to the given shader stages.
    pub fn create_uniform_descriptor_set_layout(mem: &mut Memory, stage_flags: u32) -> (r:
        DescriptorSetLayout)
        requires
            old(mem).wf(),
        ensures
            final(mem).wf(),
            old(mem).same_config(*final(mem)),
            final(mem).next_base == old(mem).next_base,
            r.ty == DescriptorPoolType::Uniform,
            r.stage_flags == stage_flags,
    {
        DescriptorSetLayout {
            handle: mem.fresh_handle(),
            ty: DescriptorPoolType::Uniform,
            stage_flags,
        }
    }

    /// A layout for one read-only shader-storage buffer visible to the
    /// given shader stages.
    pub fn create_shader_storage_read_only_descriptor_set_layout(
        mem: &mut Memory,
        stage_flags: u32,
    ) -> (r: DescriptorSetLayout)
        requires
            old(mem).wf(),
        ensures
            final(mem).wf(),
            old(mem).same_config(*final(mem)),
            final(mem).next_base == old(mem).next_base,
            r.ty == DescriptorPoolType::ShaderStorage,
            r.stage_flags == stage_flags,
    {
        DescriptorSetLayout {
            handle: mem.fresh_handle(),
            ty: DescriptorPoolType::ShaderStorage,
            stage_flags,
        }
    }
}

} // verus!

verus! {

/// Failure of a flush request.
#[derive(Debug, Clone, Copy, PartialEq, Eq, Structural)]
pub enum FlushError {
    /// The address is not registered for the requested kind: a double free,
    /// a foreign pointer, or a freed allocation.
    LookupError,
}

/// A flush never touches the page caches, the memory service, the fence or
/// the command buffer: it only advances registry state.
pub open spec fn flush_touches_no_memory(s0: VulkanAllocator, s1: VulkanAllocator) -> bool {
    &&& s1.mem == s0.mem
    &&& s1.staging_buffer_cache == s0.staging_buffer_cache
    &&& s1.staging_buffer_cache_image == s0.staging_buffer_cache_image
    &&& s1.vertex_buffer_cache == s0.vertex_buffer_cache
    &&& s1.shader_storage_cache == s0.shader_storage_cache
    &&& s1.image_buffer_caches@ == s0.image_buffer_caches@
    &&& s1.fence == s0.fence
    &&& s1.local == s0.local
    &&& s1.limits == s0.limits
    &&& s1.vertex_shader_storage_descriptor_set_layout
        == s0.vertex_shader_storage_descriptor_set_layout
}

/// The state an entry in `from` moves to when flushed: a full flush
/// completes the upload, a staging-only flush never regresses an entry that
/// is further along.
pub open spec fn flushed_state(from: FlushType, full_flush: bool) -> FlushType {
    if full_flush {
        FlushType::FullyCreated
    } else if from is NotFlushed {
        FlushType::StagingBufferFlushed
    } else {
        from
    }
}

impl VulkanAllocator {
    /// Changing only the descriptor pools keeps the allocator's invariant.
    proof fn lemma_pools_change(s1: VulkanAllocator, s2: VulkanAllocator)
        requires
            s1.wf(),
            s2.mem.wf(),
            s2.mem.next_base == s1.mem.next_base,
            s2.limits == s1.limits,
            s2.staging_buffer_cache == s1.staging_buffer_cache,
            s2.staging_buffer_cache_image == s1.staging_buffer_cache_image,
            s2.vertex_buffer_cache == s1.vertex_buffer_cache,
            s2.shader_storage_cache == s1.shader_storage_cache,
            s2.image_buffer_caches@ == s1.image_buffer_caches@,
            s2.ptr_work.mapped_memory_cache@ == s1.ptr_work.mapped_memory_cache@,
            s2.ptr_work.mapped_memory_cache_shader_storage@
                == s1.ptr_work.mapped_memory_cache_shader_storage@,
            s2.ptr_work.mapped_memory_cache_image@ == s1.ptr_work.mapped_memory_cache_image@,
            s2.shader_storage_descr_pools.wf(),
        ensures
            s2.wf(),
            forall|x: MemoryBlock| #[trigger] s1.block_ok(x) ==> s2.block_ok(x),
    {
        assert(s2.n_caches() == s1.n_caches());
        assert forall|i: int| 0 <= i < s1.n_caches() implies #[trigger] s2.cache_at(i)
            == s1.cache_at(i) by {}
        assert forall|x: MemoryBlock| #[trigger] s1.block_ok(x) implies s2.block_ok(x) by {
            assert forall|i: int, j: int, m: int|
                0 <= i < s2.n_caches() && 0 <= j < s2.cache_at(i).pages@.len() && 0 <= m
                    < s2.cache_at(i).pages@[j].free@.len() implies i_disjoint(
                (#[trigger] s2.cache_at(i).pages@[j].free@[m]).0 as int,
                s2.cache_at(i).pages@[j].free@[m].1 as int,
                x.offset as int,
                x.size as int,
            ) by {
                assert(s2.cache_at(i) == s1.cache_at(i));
                assert(s1.free_clear(x.offset as int, x.size as int));
            }
            assert forall|i: int, j: int|
                0 <= i < s2.n_caches() && 0 <= j < s2.cache_at(i).pages@.len() && (
                #[trigger] s2.cache_at(i).pages@[j]).base == x.page_base implies s2.cache_at(
                i,
            ).pages@[j].size == x.page_size by {
                assert(s2.cache_at(i) == s1.cache_at(i));
                assert(s1.page_size_agrees(x));
            }
        }
        assert forall|t2: int, k2: u64, sx: int| s2.is_live(t2, k2, sx) implies s2.block_ok(
            #[trigger] s2.live_block(t2, k2, sx),
        ) && s2.live_block(t2, k2, sx).host_visible == (sx == 0) by {
            assert(s1.is_live(t2, k2, sx));
            assert(s2.live_block(t2, k2, sx) == s1.live_block(t2, k2, sx));
            assert(s1.block_ok(s1.live_block(t2, k2, sx)));
        }
        assert forall|t2: int, k2: u64| s2.is_live(t2, k2, 0) implies (#[trigger] s2.live_block(
            t2,
            k2,
            0,
        )).addr_spec() == k2 by {
            assert(s1.live_block(t2, k2, 0).addr_spec() == k2);
        }
        assert forall|t1x: int, k1: u64, s1x: int, t2x: int, k2: u64, s2x: int|
            s2.is_live(t1x, k1, s1x) && s2.is_live(t2x, k2, s2x) && (t1x != t2x || k1 != k2 || s1x
                != s2x) implies i_disjoint(
            (#[trigger] s2.live_block(t1x, k1, s1x)).offset as int,
            s2.live_block(t1x, k1, s1x).size as int,
            (#[trigger] s2.live_block(t2x, k2, s2x)).offset as int,
            s2.live_block(t2x, k2, s2x).size as int,
        ) by {
            assert(s1.is_live(t1x, k1, s1x) && s1.is_live(t2x, k2, s2x));
            assert(s2.live_block(t1x, k1, s1x) == s1.live_block(t1x, k1, s1x));
            assert(s2.live_block(t2x, k2, s2x) == s1.live_block(t2x, k2, s2x));
        }
        assert(s2.entries_wf());
        assert(s2.entry_shapes_wf());
        assert(s2.caches_wf());
        assert(s2.wf());
    }

    /// Flushes the staging range of the buffer entry under `mem` and, on a
    /// full flush, records and submits the staging-to-device copy,
    /// returning the fence and command buffer of the submission. The
    /// entry's state only ever advances.
    pub fn flush_buffer_memory(&mut self, mem: u64, full_flush: bool) -> (r: Result<
        Option<(Fence, CommandBuffers)>,
        FlushError,
    >)
        requires
            old(self).wf(),
        ensures
            final(self).wf(),
            final(self).limits == old(self).limits,
            r is Ok <==> old(self).spec_mem_block_exists(mem),
            match r {
                Ok(ret) => {
                    &&& (ret is Some <==> full_flush)
                    &&& (full_flush ==> ret == Some(
                        (old(self).fence, old(self).local.command_buffers),
                    ))
                    &&& final(self).ptr_work.mapped_memory_cache@ == old(self).ptr_work.mapped_memory_cache@.insert(
                        mem,
                        final(self).ptr_work.mapped_memory_cache@[mem],
                    )
                    &&& {
                        let e0 = old(self).ptr_work.mapped_memory_cache@[mem];
                        let e1 = final(self).ptr_work.mapped_memory_cache@[mem];
                        &&& e1.staging == e0.staging
                        &&& e1.device == e0.device
                        &&& e1.is_flushed == flushed_state(e0.is_flushed, full_flush)
                        &&& flush_rank(e1.is_flushed) >= flush_rank(e0.is_flushed)
                    }
                    &&& final(self).ptr_work.mapped_memory_cache_shader_storage@ == old(self).ptr_work.mapped_memory_cache_shader_storage@
                    &&& final(self).ptr_work.mapped_memory_cache_image@ == old(self).ptr_work.mapped_memory_cache_image@
                    &&& flush_touches_no_memory(*old(self), *final(self))
                    &&& final(self).shader_storage_descr_pools == old(self).shader_storage_descr_pools
                },
                Err(e) => {
                    &&& e == FlushError::LookupError
                    &&& *final(self) == *old(self)
                },
            },
    {
        if !self.ptr_work.mapped_memory_cache.contains_key(&mem) {
            return Err(FlushError::LookupError);
        }
        let ghost s0 = *self;
        let res = self.ptr_work.mapped_memory_cache.remove(&mem);
        match res {
            Some(entry) => {
                proof {
                    VulkanAllocator::lemma_remove_entry(s0, *self, kind_buffer(), mem);
                    assert(entry.staging == s0.live_block(kind_buffer(), mem, 0));
                    assert(entry.device == s0.live_block(kind_buffer(), mem, 1));
                    assert(s0.block_ok(entry.staging) && s0.block_ok(entry.device));
                }
                let ghost s_r = *self;
                let new_state = if full_flush {
                    FlushType::FullyCreated
                } else {
                    match entry.is_flushed {
                        FlushType::NotFlushed => FlushType::StagingBufferFlushed,
                        FlushType::StagingBufferFlushed => FlushType::StagingBufferFlushed,
                        FlushType::FullyCreated => FlushType::FullyCreated,
                    }
                };
                let new_entry = VulkanAllocatorBufferCacheEntry {
                    staging: entry.staging,
                    device: entry.device,
                    is_flushed: new_state,
                };
                self.ptr_work.mapped_memory_cache.insert(mem, new_entry);
                proof {
                    assert forall|t2: int, k2: u64, sx: int| s_r.is_live(t2, k2, sx) implies i_disjoint(
                        (#[trigger] s_r.live_block(t2, k2, sx)).offset as int,
                        s_r.live_block(t2, k2, sx).size as int,
                        entry.staging.offset as int,
                        entry.staging.size as int,
                    ) && i_disjoint(
                        s_r.live_block(t2, k2, sx).offset as int,
                        s_r.live_block(t2, k2, sx).size as int,
                        entry.device.offset as int,
                        entry.device.size as int,
                    ) by {
                        assert(s0.is_live(t2, k2, sx));
                        assert(s_r.live_block(t2, k2, sx) == s0.live_block(t2, k2, sx));
                    }
                    VulkanAllocator::lemma_insert_entry(
                        s_r,
                        *self,
                        kind_buffer(),
                        mem,
                        entry.staging,
                        entry.device,
                    );
                    assert(self.ptr_work.mapped_memory_cache@ =~= s0.ptr_work.mapped_memory_cache@.insert(
                        mem,
                        new_entry,
                    ));
                }
                if full_flush {
                    Ok(Some((self.fence, self.local.command_buffers)))
                } else {
                    Ok(None)
                }
            },
            None => {
                proof {
                    assert(false);
                }
                Err(FlushError::LookupError)
            },
        }
    }
}

} // verus!

verus! {

impl VulkanAllocator {
    /// Flushes the image entry under `mem`; a full flush records the
    /// buffer-to-image copy (per mip level) and submits it.
    pub fn flush_img_memory(&mut self, mem: u64, full_flush: bool) -> (r: Result<
        Option<(Fence, CommandBuffers)>,
        FlushError,
    >)
        requires
            old(self).wf(),
        ensures
            final(self).wf(),
            final(self).limits == old(self).limits,
            r is Ok <==> old(self).spec_mem_block_image_exists(mem),
            match r {
                Ok(ret) => {
                    &&& (ret is Some <==> full_flush)
                    &&& (full_flush ==> ret == Some(
                        (old(self).fence, old(self).local.command_buffers),
                    ))
                    &&& final(self).ptr_work.mapped_memory_cache_image@ == old(self).ptr_work.mapped_memory_cache_image@.insert(
                        mem,
                        final(self).ptr_work.mapped_memory_cache_image@[mem],
                    )
                    &&& {
                        let e0 = old(self).ptr_work.mapped_memory_cache_image@[mem];
                        let e1 = final(self).ptr_work.mapped_memory_cache_image@[mem];
                        &&& e1.staging == e0.staging
                        &&& e1.img == e0.img
                        &&& e1.img_mem == e0.img_mem
                        &&& e1.data == e0.data
                        &&& e1.is_flushed == flushed_state(e0.is_flushed, full_flush)
                        &&& flush_rank(e1.is_flushed) >= flush_rank(e0.is_flushed)
                    }
                    &&& final(self).ptr_work.mapped_memory_cache@ == old(self).ptr_work.mapped_memory_cache@
                    &&& final(self).ptr_work.mapped_memory_cache_shader_storage@ == old(self).ptr_work.mapped_memory_cache_shader_storage@
                    &&& flush_touches_no_memory(*old(self), *final(self))
                    &&& final(self).shader_storage_descr_pools == old(self).shader_storage_descr_pools
                },
                Err(e) => {
                    &&& e == FlushError::LookupError
                    &&& *final(self) == *old(self)
                },
            },
    {
        if !self.ptr_work.mapped_memory_cache_image.contains_key(&mem) {
            return Err(FlushError::LookupError);
        }
        let ghost s0 = *self;
        let res = self.ptr_work.mapped_memory_cache_image.remove(&mem);
        match res {
            Some(entry) => {
                proof {
                    VulkanAllocator::lemma_remove_entry(s0, *self, kind_image(), mem);
                    assert(entry.staging == s0.live_block(kind_image(), mem, 0));
                    assert(entry.img_mem.base == s0.live_block(kind_image(), mem, 1));
                    assert(s0.block_ok(entry.staging) && s0.block_ok(entry.img_mem.base));
                }
                let ghost s_r = *self;
                let new_state = if full_flush {
                    FlushType::FullyCreated
                } else {
                    match entry.is_flushed {
                        FlushType::NotFlushed => FlushType::StagingBufferFlushed,
                        FlushType::StagingBufferFlushed => FlushType::StagingBufferFlushed,
                        FlushType::FullyCreated => FlushType::FullyCreated,
                    }
                };
                let new_entry = VulkanAllocatorImageCacheEntry {
                    staging: entry.staging,
                    img: entry.img,
                    img_mem: entry.img_mem,
                    data: entry.data,
                    is_flushed: new_state,
                };
                self.ptr_work.mapped_memory_cache_image.insert(mem, new_entry);
                proof {
                    assert forall|t2: int, k2: u64, sx: int| s_r.is_live(t2, k2, sx) implies i_disjoint(
                        (#[trigger] s_r.live_block(t2, k2, sx)).offset as int,
                        s_r.live_block(t2, k2, sx).size as int,
                        entry.staging.offset as int,
                        entry.staging.size as int,
                    ) && i_disjoint(
                        s_r.live_block(t2, k2, sx).offset as int,
                        s_r.live_block(t2, k2, sx).size as int,
                        entry.img_mem.base.offset as int,
                        entry.img_mem.base.size as int,
                    ) by {
                        assert(s0.is_live(t2, k2, sx));
                        assert(s_r.live_block(t2, k2, sx) == s0.live_block(t2, k2, sx));
                    }
                    VulkanAllocator::lemma_insert_entry(
                        s_r,
                        *self,
                        kind_image(),
                        mem,
                        entry.staging,
                        entry.img_mem.base,
                    );
                    assert(self.ptr_work.mapped_memory_cache_image@
                        =~= s0.ptr_work.mapped_memory_cache_image@.insert(mem, new_entry));
                }
                if full_flush {
                    Ok(Some((self.fence, self.local.command_buffers)))
                } else {
                    Ok(None)
                }
            },
            None => {
                proof {
                    assert(false);
                }
                Err(FlushError::LookupError)
            },
        }
    }

    /// Flushes the shader-storage entry under `mem`. A full flush submits
    /// the copy and, the first time, binds one descriptor set to the device
    /// block at its resident offset; later full flushes keep the set.
    pub fn flush_shader_storage_memory(&mut self, mem: u64, full_flush: bool) -> (r: Result<
        Option<(Fence, CommandBuffers)>,
        FlushError,
    >)
        requires
            old(self).wf(),
        ensures
            final(self).wf(),
            final(self).limits == old(self).limits,
            r is Ok <==> old(self).spec_mem_block_shader_storage_exists(mem),
            match r {
                Ok(ret) => {
                    &&& (ret is Some <==> full_flush)
                    &&& (full_flush ==> ret == Some(
                        (old(self).fence, old(self).local.command_buffers),
                    ))
                    &&& final(self).ptr_work.mapped_memory_cache_shader_storage@ == old(self).ptr_work.mapped_memory_cache_shader_storage@.insert(
                        mem,
                        final(self).ptr_work.mapped_memory_cache_shader_storage@[mem],
                    )
                    &&& {
                        let e0 = old(self).ptr_work.mapped_memory_cache_shader_storage@[mem];
                        let e1 = final(self).ptr_work.mapped_memory_cache_shader_storage@[mem];
                        &&& e1.base.staging == e0.base.staging
                        &&& e1.base.device == e0.base.device
                        &&& e1.base.is_flushed == flushed_state(e0.base.is_flushed, full_flush)
                        &&& flush_rank(e1.base.is_flushed) >= flush_rank(e0.base.is_flushed)
                        // the descriptor set is bound exactly once, by the
                        // first full flush
                        &&& (!full_flush ==> e1.descriptor_sets == e0.descriptor_sets)
                        &&& (full_flush && e0.descriptor_sets is Some ==> e1.descriptor_sets
                            == e0.descriptor_sets)
                        // the first full flush binds one set to the device
                        // block at its resident offset inside its page's
                        // buffer, spanning its usable bytes
                        &&& (full_flush && e0.descriptor_sets is None ==> match e1.descriptor_sets {
                            Some(d) => {
                                &&& d.set_count == 1
                                &&& d.binding == Some(
                                    crate::descriptors::SetBinding {
                                        buffer: e0.base.device.page_base,
                                        offset: (e0.base.device.addr_spec()
                                            - e0.base.device.page_base) as u64,
                                        instance_size: (e0.base.device.usable_size()) as u64,
                                    },
                                )
                            },
                            None => false,
                        })
                    }
                    &&& final(self).ptr_work.mapped_memory_cache@ == old(self).ptr_work.mapped_memory_cache@
                    &&& final(self).ptr_work.mapped_memory_cache_image@ == old(self).ptr_work.mapped_memory_cache_image@
                    &&& flush_touches_no_memory(*old(self), *final(self))
                    &&& final(self).shader_storage_descr_pools.default_alloc_size == old(self).shader_storage_descr_pools.default_alloc_size
                    &&& final(self).shader_storage_descr_pools.pool_ty == old(self).shader_storage_descr_pools.pool_ty
                    &&& final(self).shader_storage_descr_pools.pools@.len() >= old(self).shader_storage_descr_pools.pools@.len()
                    &&& (!full_flush || old(self).ptr_work.mapped_memory_cache_shader_storage@[mem].descriptor_sets is Some
                        ==> final(self).shader_storage_descr_pools == old(self).shader_storage_descr_pools)
                },
                Err(e) => {
                    &&& e == FlushError::LookupError
                    &&& *final(self) == *old(self)
                },
            },
    {
        if !self.ptr_work.mapped_memory_cache_shader_storage.contains_key(&mem) {
            return Err(FlushError::LookupError);
        }
        let ghost s0 = *self;
        let res = self.ptr_work.mapped_memory_cache_shader_storage.remove(&mem);
        match res {
            Some(entry) => {
                proof {
                    VulkanAllocator::lemma_remove_entry(s0, *self, kind_shader_storage(), mem);
                    assert(entry.base.staging == s0.live_block(kind_shader_storage(), mem, 0));
                    assert(entry.base.device == s0.live_block(kind_shader_storage(), mem, 1));
                    assert(s0.block_ok(entry.base.staging) && s0.block_ok(entry.base.device));
                }
                let ghost s_r = *self;
                let descriptor_sets: Option<DescriptorSets> = if full_flush {
                    match entry.descriptor_sets {
                        Some(d) => Some(d),
                        None => {
                            // bind one set to the device block at its
                            // resident offset inside its page's buffer
                            let bind_buffer = Buffer { handle: entry.base.device.page_base };
                            let offset_in_buffer = entry.base.device.addr()
                                - entry.base.device.page_base;
                            let usable = entry.base.device.size - entry.base.device.pad;
                            let mut descriptor = Self::create_shader_storage_descriptor_sets(
                                &mut self.shader_storage_descr_pools,
                                &self.vertex_shader_storage_descriptor_set_layout,
                                1,
                                &bind_buffer,
                                usable,
                                offset_in_buffer,
                            );
                            proof {
                                if descriptor@.len() == 0 {
                                    assert(sum_set_counts(descriptor@) == 0);
                                    assert(false);
                                }
                                // one set was requested, so the single group
                                // holds exactly one set, bound at the start
                                assert(descriptor@.take(0).len() == 0);
                                crate::descriptors::lemma_sum_take_succ(descriptor@, 0);
                                crate::descriptors::lemma_sum_take_le(descriptor@, 1);
                                assert(descriptor@[0].set_count == 1);
                            }
                            Some(descriptor.remove(0))
                        },
                    }
                } else {
                    entry.descriptor_sets
                };
                proof {
                    VulkanAllocator::lemma_pools_change(s_r, *self);
                }
                let ghost s_p = *self;
                let new_state = if full_flush {
                    FlushType::FullyCreated
                } else {
                    match entry.base.is_flushed {
                        FlushType::NotFlushed => FlushType::StagingBufferFlushed,
                        FlushType::StagingBufferFlushed => FlushType::StagingBufferFlushed,
                        FlushType::FullyCreated => FlushType::FullyCreated,
                    }
                };
                let new_entry = VulkanAllocatorShaderStorageCacheEntry {
                    base: VulkanAllocatorBufferCacheEntry {
                        staging: entry.base.staging,
                        device: entry.base.device,
                        is_flushed: new_state,
                    },
                    descriptor_sets,
                };
                self.ptr_work.mapped_memory_cache_shader_storage.insert(mem, new_entry);
                proof {
                    assert forall|t2: int, k2: u64, sx: int| s_p.is_live(t2, k2, sx) implies i_disjoint(
                        (#[trigger] s_p.live_block(t2, k2, sx)).offset as int,
                        s_p.live_block(t2, k2, sx).size as int,
                        entry.base.staging.offset as int,
                        entry.base.staging.size as int,
                    ) && i_disjoint(
                        s_p.live_block(t2, k2, sx).offset as int,
                        s_p.live_block(t2, k2, sx).size as int,
                        entry.base.device.offset as int,
                        entry.base.device.size as int,
                    ) by {
                        assert(s_r.is_live(t2, k2, sx) == s_p.is_live(t2, k2, sx));
                        assert(s_p.live_block(t2, k2, sx) == s_r.live_block(t2, k2, sx));
                        assert(s0.is_live(t2, k2, sx));
                        assert(s_r.live_block(t2, k2, sx) == s0.live_block(t2, k2, sx));
                    }
                    assert(s_p.block_ok(entry.base.staging) && s_p.block_ok(entry.base.device));
                    VulkanAllocator::lemma_insert_entry(
                        s_p,
                        *self,
                        kind_shader_storage(),
                        mem,
                        entry.base.staging,
                        entry.base.device,
                    );
                    assert(self.ptr_work.mapped_memory_cache_shader_storage@
                        =~= s0.ptr_work.mapped_memory_cache_shader_storage@.insert(mem, new_entry));
                }
                if full_flush {
                    Ok(Some((self.fence, self.local.command_buffers)))
                } else {
                    Ok(None)
                }
            },
            None => {
                proof {
                    assert(false);
                }
                Err(FlushError::LookupError)
            },
        }
    }
}

} // verus!

verus! {

/// Mip levels of an image whose largest extent is `n` texels: one per
/// halving, plus the base level.
pub open spec fn spec_mip_levels(n: int) -> int
    decreases n,
{
    if n <= 1 {
        1
    } else {
        1 + spec_mip_levels(n / 2)
    }
}

/// How many mip levels a `width x height` image gets when the full chain is
/// generated.
pub fn image_mip_level_count(width: u32, height: u32) -> (r: usize)
    requires
        1 <= width,
        1 <= height,
    ensures
        r == spec_mip_levels(if width >= height {
            width as int
        } else {
            height as int
        }),
        1 <= r <= 32,
{
    let mut largest: u32 = if width >= height {
        width
    } else {
        height
    };
    let ghost n0 = largest as int;
    let mut count: usize = 1;
    proof {
        vstd::arithmetic::power2::lemma2_to64();
        assert(vstd::arithmetic::power2::pow2(0) == 1);
        assert(0xFFFF_FFFFint / 1int == 0xFFFF_FFFF);
    }
    while largest > 1
        invariant
            1 <= largest,
            1 <= count <= 32,
            spec_mip_levels(n0) == count - 1 + spec_mip_levels(largest as int),
            largest as int <= 0xFFFF_FFFFint / vstd::arithmetic::power2::pow2(
                (count - 1) as nat,
            ) as int,
        decreases largest,
    {
        proof {
            let p = vstd::arithmetic::power2::pow2((count - 1) as nat) as int;
            vstd::arithmetic::power2::lemma_pow2_pos((count - 1) as nat);
            vstd::arithmetic::power2::lemma_pow2_unfold(count as nat);
            vstd::arithmetic::div_mod::lemma_div_is_ordered(
                largest as int,
                0xFFFF_FFFFint / p,
                2,
            );
            vstd::arithmetic::div_mod::lemma_div_denominator(0xFFFF_FFFFint, p, 2);
            if count >= 32 {
                vstd::arithmetic::power2::lemma2_to64();
                assert(p == 0x8000_0000);
                assert(0xFFFF_FFFFint / 0x8000_0000int == 1);
                assert(false);
            }
        }
        largest = largest / 2;
        count += 1;
    }
    count
}

impl VulkanAllocator {
    /// Appending an empty image cache for a new memory-type bitmask keeps
    /// the invariant.
    proof fn lemma_add_image_cache(s1: VulkanAllocator, s2: VulkanAllocator)
        requires
            s1.wf(),
            s2.mem == s1.mem,
            s2.limits == s1.limits,
            s2.shader_storage_descr_pools == s1.shader_storage_descr_pools,
            s2.staging_buffer_cache == s1.staging_buffer_cache,
            s2.staging_buffer_cache_image == s1.staging_buffer_cache_image,
            s2.vertex_buffer_cache == s1.vertex_buffer_cache,
            s2.shader_storage_cache == s1.shader_storage_cache,
            s2.image_buffer_caches@.len() == s1.image_buffer_caches@.len() + 1,
            forall|i: int|
                0 <= i < s1.image_buffer_caches@.len() ==> #[trigger] s2.image_buffer_caches@[i]
                    == s1.image_buffer_caches@[i],
            s2.image_buffer_caches@.last().1.pages@.len() == 0,
            !s2.image_buffer_caches@.last().1.host_visible,
            s2.ptr_work.mapped_memory_cache@ == s1.ptr_work.mapped_memory_cache@,
            s2.ptr_work.mapped_memory_cache_shader_storage@
                == s1.ptr_work.mapped_memory_cache_shader_storage@,
            s2.ptr_work.mapped_memory_cache_image@ == s1.ptr_work.mapped_memory_cache_image@,
        ensures
            s2.wf(),
            forall|x: MemoryBlock| #[trigger] s1.block_ok(x) ==> s2.block_ok(x),
    {
        assert(s2.n_caches() == s1.n_caches() + 1);
        assert forall|i: int| 0 <= i < s1.n_caches() implies #[trigger] s2.cache_at(i)
            == s1.cache_at(i) by {}
        assert(s2.cache_at(s1.n_caches()).pages@.len() == 0);
        assert forall|x: MemoryBlock| #[trigger] s1.block_ok(x) implies s2.block_ok(x) by {
            assert forall|i: int, j: int, m: int|
                0 <= i < s2.n_caches() && 0 <= j < s2.cache_at(i).pages@.len() && 0 <= m
                    < s2.cache_at(i).pages@[j].free@.len() implies i_disjoint(
                (#[trigger] s2.cache_at(i).pages@[j].free@[m]).0 as int,
                s2.cache_at(i).pages@[j].free@[m].1 as int,
                x.offset as int,
                x.size as int,
            ) by {
                assert(i < s1.n_caches());
                assert(s2.cache_at(i) == s1.cache_at(i));
                assert(s1.free_clear(x.offset as int, x.size as int));
            }
            assert forall|i: int, j: int|
                0 <= i < s2.n_caches() && 0 <= j < s2.cache_at(i).pages@.len() && (
                #[trigger] s2.cache_at(i).pages@[j]).base == x.page_base implies s2.cache_at(
                i,
            ).pages@[j].size == x.page_size by {
                assert(i < s1.n_caches());
                assert(s2.cache_at(i) == s1.cache_at(i));
                assert(s1.page_size_agrees(x));
            }
        }
        assert forall|i: int| 0 <= i < s2.n_caches() implies (#[trigger] s2.cache_at(i)).pages_wf()
            && s2.cache_at(i).below(s2.mem.next_base as int) && (i >= 4 ==> !s2.cache_at(
            i,
        ).host_visible) by {
            if i < s1.n_caches() {
                assert(s2.cache_at(i) == s1.cache_at(i));
            }
        }
        assert forall|i1: int, j1: int, i2: int, j2: int|
            0 <= i1 < s2.n_caches() && 0 <= j1 < s2.cache_at(i1).pages@.len() && 0 <= i2
                < s2.n_caches() && 0 <= j2 < s2.cache_at(i2).pages@.len() && (i1 != i2 || j1 != j2)
            implies i_disjoint(
            (#[trigger] s2.cache_at(i1).pages@[j1]).base as int,
            s2.cache_at(i1).pages@[j1].size as int,
            (#[trigger] s2.cache_at(i2).pages@[j2]).base as int,
            s2.cache_at(i2).pages@[j2].size as int,
        ) by {
            assert(i1 < s1.n_caches() && i2 < s1.n_caches());
            assert(s2.cache_at(i1) == s1.cache_at(i1));
            assert(s2.cache_at(i2) == s1.cache_at(i2));
        }
        assert forall|t2: int, k2: u64, sx: int| s2.is_live(t2, k2, sx) implies s2.block_ok(
            #[trigger] s2.live_block(t2, k2, sx),
        ) && s2.live_block(t2, k2, sx).host_visible == (sx == 0) by {
            assert(s1.is_live(t2, k2, sx));
            assert(s2.live_block(t2, k2, sx) == s1.live_block(t2, k2, sx));
            assert(s1.block_ok(s1.live_block(t2, k2, sx)));
        }
        assert forall|t2: int, k2: u64| s2.is_live(t2, k2, 0) implies (#[trigger] s2.live_block(
            t2,
            k2,
            0,
        )).addr_spec() == k2 by {
            assert(s1.live_block(t2, k2, 0).addr_spec() == k2);
        }
        assert forall|t1x: int, k1: u64, s1x: int, t2x: int, k2: u64, s2x: int|
            s2.is_live(t1x, k1, s1x) && s2.is_live(t2x, k2, s2x) && (t1x != t2x || k1 != k2 || s1x
                != s2x) implies i_disjoint(
            (#[trigger] s2.live_block(t1x, k1, s1x)).offset as int,
            s2.live_block(t1x, k1, s1x).size as int,
            (#[trigger] s2.live_block(t2x, k2, s2x)).offset as int,
            s2.live_block(t2x, k2, s2x).size as int,
        ) by {
            assert(s1.is_live(t1x, k1, s1x) && s1.is_live(t2x, k2, s2x));
            assert(s2.live_block(t1x, k1, s1x) == s1.live_block(t1x, k1, s1x));
            assert(s2.live_block(t2x, k2, s2x) == s1.live_block(t2x, k2, s2x));
        }
        assert(s2.entries_wf());
        assert(s2.entry_shapes_wf());
        assert(s2.caches_wf());
        assert(s2.wf());
    }
}

} // verus!

verus! {

impl VulkanAllocator {
    /// Carves device-local memory for an image out of the cache for its
    /// compatible memory-type bitmask, creating that cache on first use.
    pub fn get_image_memory(
        &mut self,
        required_size: u64,
        required_alignment: u64,
        required_memory_type_bits: u32,
    ) -> (r: Result<MemoryImageBlock, BufferAllocationError>)
        requires
            old(self).wf(),
            1 <= required_size <= MAX_ALLOC_SIZE,
            1 <= required_alignment,
            (ALIGN_GRANULARITY as int) % (required_alignment as int) == 0,
        ensures
            final(self).wf(),
            final(self).limits == old(self).limits,
            final(self).mem.image_memory_type_bits == old(self).mem.image_memory_type_bits,
            final(self).mem.optimal_rgba_image_blitting == old(self).mem.optimal_rgba_image_blitting,
            final(self).ptr_work.mapped_memory_cache@ == old(self).ptr_work.mapped_memory_cache@,
            final(self).ptr_work.mapped_memory_cache_shader_storage@ == old(self).ptr_work.mapped_memory_cache_shader_storage@,
            final(self).ptr_work.mapped_memory_cache_image@ == old(self).ptr_work.mapped_memory_cache_image@,
            final(self).staging_buffer_cache == old(self).staging_buffer_cache,
            final(self).staging_buffer_cache_image == old(self).staging_buffer_cache_image,
            final(self).vertex_buffer_cache == old(self).vertex_buffer_cache,
            final(self).shader_storage_cache == old(self).shader_storage_cache,
            final(self).mem.next_base <= old(self).mem.next_base + page_size_for(
                IMG_SIZE1024X1024,
                required_size,
            ) + ALIGN_GRANULARITY,
            old(self).mem.window_fits(page_size_for(IMG_SIZE1024X1024, required_size)) ==> r is Ok,
            // the side table gains (or keeps) a bucket for the bitmask
            exists|x: int|
                0 <= x < final(self).image_buffer_caches@.len() && (#[trigger] final(self).image_buffer_caches@[x]).0 == required_memory_type_bits,
            match r {
                Ok(ib) => {
                    &&& ib.base.wf()
                    &&& !ib.base.host_visible
                    &&& ib.base.usable_size() == required_size
                    &&& ib.base.addr_spec() % (required_alignment as int) == 0
                    &&& final(self).block_ok(ib.base)
                    &&& forall|bb: MemoryBlock|
                        #[trigger] old(self).block_ok(bb) ==> final(self).block_ok(bb)
                            && i_disjoint(
                            bb.offset as int,
                            bb.size as int,
                            ib.base.offset as int,
                            ib.base.size as int,
                        )
                },
                Err(e) => {
                    &&& e == BufferAllocationError::OutOfMemory
                    &&& forall|bb: MemoryBlock|
                        #[trigger] old(self).block_ok(bb) ==> final(self).block_ok(bb)
                },
            },
    {
        let ghost s0 = *self;
        let n = self.image_buffer_caches.len();
        let mut found_idx: usize = n;
        let mut x: usize = 0;
        while x < n
            invariant_except_break
                found_idx == n,
            invariant
                *self == s0,
                n == s0.image_buffer_caches@.len(),
                x <= n,
            ensures
                *self == s0,
                n == s0.image_buffer_caches@.len(),
                found_idx == n || (found_idx < n
                    && s0.image_buffer_caches@[found_idx as int].0 == required_memory_type_bits),
            decreases n - x,
        {
            if self.image_buffer_caches[x].0 == required_memory_type_bits {
                found_idx = x;
                break ;
            }
            x += 1;
        }
        if found_idx == n {
            self.image_buffer_caches.push((required_memory_type_bits, MemoryCache::new(false)));
            proof {
                VulkanAllocator::lemma_add_image_cache(s0, *self);
            }
        }
        let ghost s_a = *self;
        let ghost ia: int = 4 + found_idx as int;
        proof {
            assert(0 <= ia < s_a.n_caches());
            assert(s_a.cache_at(ia) == s_a.image_buffer_caches@[found_idx as int].1);
            assert forall|j1: int, j2: int|
                0 <= j1 < s_a.cache_at(ia).pages@.len() && 0 <= j2 < s_a.cache_at(ia).pages@.len()
                    && j1 != j2 implies i_disjoint(
                (#[trigger] s_a.cache_at(ia).pages@[j1]).base as int,
                s_a.cache_at(ia).pages@[j1].size as int,
                (#[trigger] s_a.cache_at(ia).pages@[j2]).base as int,
                s_a.cache_at(ia).pages@[j2].size as int,
            ) by {}
        }
        let (kbits, mut kcache) = self.image_buffer_caches.remove(found_idx);
        let res = self.mem.get_image_memory_block_impl(
            &mut kcache,
            IMG_SIZE1024X1024,
            required_size,
            required_alignment,
        );
        let ghost kc_final = kcache;
        self.image_buffer_caches.insert(found_idx, (kbits, kcache));
        proof {
            assert(self.image_buffer_caches@[found_idx as int] == (kbits, kc_final));
            assert(self.image_buffer_caches@ =~= s_a.image_buffer_caches@.update(
                found_idx as int,
                (kbits, kc_final),
            ));
        }
        match res {
            Ok(ib) => {
                proof {
                    assert(self.cache_at(ia) == kc_final);
                    assert forall|i: int|
                        0 <= i < s_a.n_caches() && i != ia implies s_a.cache_at(i) == self.cache_at(
                        i,
                    ) by {}
                    let j0 = choose|j: int|
                        0 <= j < kc_final.pages@.len() && (#[trigger] kc_final.pages@[j]).base
                            == ib.base.page_base && kc_final.pages@[j].size == ib.base.page_size;
                    assert(self.cache_at(ia).pages@[j0].base == ib.base.page_base
                        && self.cache_at(ia).pages@[j0].size == ib.base.page_size);
                    VulkanAllocator::lemma_acquire_preserves(s_a, *self, ia, ib.base);
                    assert forall|bb: MemoryBlock| #[trigger] s0.block_ok(bb) implies self.block_ok(
                        bb,
                    ) && i_disjoint(
                        bb.offset as int,
                        bb.size as int,
                        ib.base.offset as int,
                        ib.base.size as int,
                    ) by {
                        assert(s_a.block_ok(bb));
                    }
                }
                Ok(ib)
            },
            Err(e) => {
                proof {
                    assert(self.image_buffer_caches@ =~= s_a.image_buffer_caches@);
                    VulkanAllocator::lemma_pools_change(s_a, *self);
                    assert forall|bb: MemoryBlock| #[trigger] s0.block_ok(bb) implies self.block_ok(
                        bb,
                    ) by {
                        assert(s_a.block_ok(bb));
                    }
                }
                Err(e)
            },
        }
    }

    /// Creates a device image of the given shape and binds freshly carved
    /// device-local memory to it. Fails with `NoMemoryHeap` exactly when the
    /// device reports no compatible memory type for sampled images.
    pub fn create_image_ex(
        &mut self,
        width: u32,
        height: u32,
        depth: u32,
        mip_map_level_count: usize,
    ) -> (r: Result<(Image, MemoryImageBlock), ImageAllocationError>)
        requires
            old(self).wf(),
            1 <= width,
            1 <= height,
            1 <= depth,
            (width as int) * (height as int) * (depth as int) * 4 <= MAX_ALLOC_SIZE,
            1 <= mip_map_level_count <= 32,
        ensures
            final(self).wf(),
            final(self).limits == old(self).limits,
            final(self).mem.image_memory_type_bits == old(self).mem.image_memory_type_bits,
            final(self).mem.optimal_rgba_image_blitting == old(self).mem.optimal_rgba_image_blitting,
            final(self).ptr_work.mapped_memory_cache@ == old(self).ptr_work.mapped_memory_cache@,
            final(self).ptr_work.mapped_memory_cache_shader_storage@ == old(self).ptr_work.mapped_memory_cache_shader_storage@,
            final(self).ptr_work.mapped_memory_cache_image@ == old(self).ptr_work.mapped_memory_cache_image@,
            final(self).staging_buffer_cache == old(self).staging_buffer_cache,
            final(self).staging_buffer_cache_image == old(self).staging_buffer_cache_image,
            final(self).vertex_buffer_cache == old(self).vertex_buffer_cache,
            final(self).shader_storage_cache == old(self).shader_storage_cache,
            final(self).mem.next_base <= old(self).mem.next_base + page_size_for(
                IMG_SIZE1024X1024,
                ((width as int) * (height as int) * (depth as int) * 4) as u64,
            ) + ALIGN_GRANULARITY,
            old(self).mem.image_memory_type_bits != 0 && old(self).mem.window_fits(
                page_size_for(
                    IMG_SIZE1024X1024,
                    ((width as int) * (height as int) * (depth as int) * 4) as u64,
                ),
            ) ==> r is Ok,
            match r {
                Ok((img, ib)) => {
                    &&& old(self).mem.image_memory_type_bits != 0
                    &&& img.width == width
                    &&& img.height == height
                    &&& img.depth == depth
                    &&& img.mip_map_count == mip_map_level_count
                    &&& ib.base.wf()
                    &&& !ib.base.host_visible
                    &&& ib.base.usable_size() == (width as int) * (height as int) * (
                    depth as int) * 4
                    &&& final(self).block_ok(ib.base)
                    &&& forall|bb: MemoryBlock|
                        #[trigger] old(self).block_ok(bb) ==> final(self).block_ok(bb)
                            && i_disjoint(
                            bb.offset as int,
                            bb.size as int,
                            ib.base.offset as int,
                            ib.base.size as int,
                        )
                },
                Err(e) => {
                    &&& (e == ImageAllocationError::NoMemoryHeap <==> old(self).mem.image_memory_type_bits == 0)
                    &&& (e == ImageAllocationError::NoMemoryHeap || e
                        == ImageAllocationError::OutOfMemory)
                    &&& forall|bb: MemoryBlock|
                        #[trigger] old(self).block_ok(bb) ==> final(self).block_ok(bb)
                },
            },
    {
        let ghost s0 = *self;
        let required_memory_type_bits = self.mem.image_memory_type_bits;
        if required_memory_type_bits == 0 {
            // no memory heap matches the image's requirements: a fatal
            // configuration error, reported rather than retried
            return Err(ImageAllocationError::NoMemoryHeap);
        }
        let handle = self.mem.fresh_handle();
        proof {
            VulkanAllocator::lemma_pools_change(s0, *self);
        }
        let ghost s_h = *self;
        proof {
            assert((width as int) * (height as int) >= 1 && (width as int) * (height as int) * (
            depth as int) >= 1) by (nonlinear_arith)
                requires
                    1 <= width,
                    1 <= height,
                    1 <= depth,
            ;
        }
        proof {
            assert((width as int) * (height as int) <= MAX_ALLOC_SIZE && (width as int) * (
            height as int) * (depth as int) <= MAX_ALLOC_SIZE) by (nonlinear_arith)
                requires
                    1 <= width,
                    1 <= height,
                    1 <= depth,
                    (width as int) * (height as int) * (depth as int) * 4 <= MAX_ALLOC_SIZE,
            ;
        }
        let size: u64 = (width as u64) * (height as u64) * (depth as u64) * 4;
        let alignment = self.limits.optimal_image_copy_mem_alignment;
        proof {
            assert(self.limits.wf());
        }
        let image_memory = match self.get_image_memory(
            size,
            alignment,
            required_memory_type_bits,
        ) {
            Ok(ib) => ib,
            Err(_) => {
                proof {
                    assert forall|bb: MemoryBlock| #[trigger] s0.block_ok(bb) implies self.block_ok(
                        bb,
                    ) by {
                        assert(s_h.block_ok(bb));
                    }
                }
                return Err(ImageAllocationError::OutOfMemory);
            },
        };
        proof {
            assert forall|bb: MemoryBlock| #[trigger] s0.block_ok(bb) implies self.block_ok(bb)
                && i_disjoint(
                bb.offset as int,
                bb.size as int,
                image_memory.base.offset as int,
                image_memory.base.size as int,
            ) by {
                assert(s_h.block_ok(bb));
            }
        }
        let image = Image {
            handle,
            width,
            height,
            depth,
            mip_map_count: mip_map_level_count as u32,
        };
        Ok((image, image_memory))
    }
}

} // verus!

verus! {

/// Whether a requested image shape exceeds the device's texture limits.
pub open spec fn dims_too_big(l: Limits, width: usize, height: usize, depth: usize) -> bool {
    ||| width > l.max_texture_size
    ||| height > l.max_texture_size
    ||| depth > l.max_texture_size
    ||| (width as int) * (height as int) * (depth as int) > (l.max_texture_size as int) * (
    l.max_texture_size as int)
}

/// The alignment image staging buffers are carved at: the larger of the
/// optimal image-copy alignment and the staging alignment.
pub open spec fn spec_image_staging_align(l: Limits) -> u64 {
    if l.optimal_image_copy_mem_alignment >= spec_staging_align(l) {
        l.optimal_image_copy_mem_alignment
    } else {
        spec_staging_align(l)
    }
}

/// The mip levels an image allocation gets: the full chain for its extent,
/// unless the flags suppress mip maps or the device cannot blit RGBA images
/// well.
pub open spec fn spec_image_mip_count(
    width: usize,
    height: usize,
    flags: TexFlags,
    optimal_rgba_image_blitting: bool,
) -> int {
    if flags.spec_no_mipmaps() || !optimal_rgba_image_blitting {
        1
    } else {
        spec_mip_levels(
            if width >= height {
                width as int
            } else {
                height as int
            },
        )
    }
}

impl VulkanAllocator {
    /// Allocates writable staging memory for a `width x height x depth`
    /// RGBA image, eagerly creating the device image and its memory, and
    /// registers the entry under the returned staging address.
    pub fn get_staging_buffer_image_for_mem_alloc(
        &mut self,
        width: usize,
        height: usize,
        depth: usize,
        is_3d_tex: bool,
        flags: TexFlags,
    ) -> (r: Result<u64, ImageAllocationError>)
        requires
            old(self).wf(),
            1 <= width,
            1 <= height,
            1 <= depth,
        ensures
            final(self).wf(),
            final(self).limits == old(self).limits,
            final(self).ptr_work.mapped_memory_cache@ == old(self).ptr_work.mapped_memory_cache@,
            final(self).ptr_work.mapped_memory_cache_shader_storage@ == old(self).ptr_work.mapped_memory_cache_shader_storage@,
            r == Err::<u64, ImageAllocationError>(ImageAllocationError::ImageDimensionsTooBig)
                <==> dims_too_big(
                old(self).limits,
                width,
                height,
                depth,
            ),
            // an oversized shape is rejected before anything is allocated
            r == Err::<u64, ImageAllocationError>(ImageAllocationError::ImageDimensionsTooBig)
                ==> *final(self) == *old(self),
            // success is owed for acceptable shapes while a configured heap
            // and room for two pages remain
            !dims_too_big(old(self).limits, width, height, depth) && old(self).mem.image_memory_type_bits != 0 && old(self).mem.window_fits(
                2 * page_size_for(
                    BUFFER_PAGE_SIZE,
                    ((width as int) * (height as int) * (depth as int) * 4) as u64,
                ) + ALIGN_GRANULARITY,
            ) ==> r is Ok,
            match r {
                Ok(addr) => {
                    &&& !old(self).spec_mem_block_exists(addr)
                    &&& !old(self).spec_mem_block_shader_storage_exists(addr)
                    &&& !old(self).spec_mem_block_image_exists(addr)
                    &&& final(self).spec_mem_block_image_exists(addr)
                    &&& final(self).ptr_work.mapped_memory_cache_image@ == old(self).ptr_work.mapped_memory_cache_image@.insert(
                        addr,
                        final(self).ptr_work.mapped_memory_cache_image@[addr],
                    )
                    &&& {
                        let e = final(self).ptr_work.mapped_memory_cache_image@[addr];
                        &&& e.is_flushed == FlushType::NotFlushed
                        &&& e.data.width == width
                        &&& e.data.height == height
                        &&& e.data.depth == depth
                        &&& e.data.is_3d_tex == is_3d_tex
                        &&& e.data.flags == flags
                        &&& e.data.mip_map_count == spec_image_mip_count(
                            width,
                            height,
                            flags,
                            old(self).mem.optimal_rgba_image_blitting,
                        )
                        &&& e.staging.usable_size() == (width as int) * (height as int) * (
                        depth as int) * 4
                        &&& e.staging.addr_spec() == addr
                        &&& e.img.width == width && e.img.height == height && e.img.depth == depth
                        &&& e.img.mip_map_count == e.data.mip_map_count
                    }
                    &&& final(self).staging_buffer_cache_image.pages@.len() == old(self).staging_buffer_cache_image.pages@.len() + (
                    if old(self).staging_buffer_cache_image.has_fit(
                        ((width as int) * (height as int) * (depth as int) * 4) as u64,
                        spec_image_staging_align(old(self).limits),
                    ) {
                        0int
                    } else {
                        1int
                    })
                    &&& (!old(self).staging_buffer_cache_image.has_fit(
                        ((width as int) * (height as int) * (depth as int) * 4) as u64,
                        spec_image_staging_align(old(self).limits),
                    ) ==> final(self).staging_buffer_cache_image.pages@.last().size
                        == page_size_for(
                        BUFFER_PAGE_SIZE,
                        ((width as int) * (height as int) * (depth as int) * 4) as u64,
                    ))
                    &&& crate::memory::carved_from(
                        old(self).staging_buffer_cache_image,
                        final(self).staging_buffer_cache_image,
                        final(self).ptr_work.mapped_memory_cache_image@[addr].staging,
                    )
                },
                Err(e) => {
                    &&& final(self).ptr_work.mapped_memory_cache_image@ == old(self).ptr_work.mapped_memory_cache_image@
                    &&& (e == ImageAllocationError::NoMemoryHeap ==> old(self).mem.image_memory_type_bits == 0)
                    &&& crate::memory::free_ranges_preserved(
                        old(self).staging_buffer_cache_image,
                        final(self).staging_buffer_cache_image,
                    )
                },
            },
    {
        let ghost s0 = *self;
        let max_tex = self.limits.max_texture_size as usize;
        proof {
            assert(self.limits.wf());
        }
        if width > max_tex || height > max_tex || depth > max_tex {
            proof {
                crate::memory::lemma_free_ranges_preserved_refl(s0.staging_buffer_cache_image);
            }
            return Err(ImageAllocationError::ImageDimensionsTooBig);
        }
        proof {
            assert((width as int) * (height as int) <= 16384 * 16384 && (width as int) * (
            height as int) * (depth as int) <= 16384int * 16384 * 16384 && (width as int) * (
            height as int) >= 1 && (width as int) * (height as int) * (depth as int) >= 1)
                by (nonlinear_arith)
                requires
                    1 <= width <= 16384,
                    1 <= height <= 16384,
                    1 <= depth <= 16384,
            ;
        }
        proof {
            assert((max_tex as int) * (max_tex as int) <= 16384int * 16384) by (nonlinear_arith)
                requires
                    0 <= max_tex <= 16384,
            ;
        }
        let wh = (width as u64) * (height as u64);
        let whd = wh * (depth as u64);
        if whd > (self.limits.max_texture_size as u64) * (self.limits.max_texture_size as u64) {
            proof {
                crate::memory::lemma_free_ranges_preserved_refl(s0.staging_buffer_cache_image);
            }
            return Err(ImageAllocationError::ImageDimensionsTooBig);
        }
        proof {
            assert((width as int) * (height as int) * (depth as int) * 4 <= MAX_ALLOC_SIZE)
                by (nonlinear_arith)
                requires
                    (width as int) * (height as int) * (depth as int) <= (
                    s0.limits.max_texture_size as int) * (s0.limits.max_texture_size as int),
                    1 <= s0.limits.max_texture_size <= 16384,
                    MAX_ALLOC_SIZE == 0x4000_0000,
            ;
        }
        let bytes: u64 = whd * 4;
        let align_a = if self.limits.non_coherent_mem_alignment >= 16 {
            self.limits.non_coherent_mem_alignment
        } else {
            16u64
        };
        let align = if self.limits.optimal_image_copy_mem_alignment >= align_a {
            self.limits.optimal_image_copy_mem_alignment
        } else {
            align_a
        };
        proof {
            assert(self.limits.wf());
            if align == self.limits.optimal_image_copy_mem_alignment {
                assert((ALIGN_GRANULARITY as int) % (align as int) == 0);
            } else if align == self.limits.non_coherent_mem_alignment {
                assert((ALIGN_GRANULARITY as int) % (align as int) == 0);
            } else {
                assert(align == 16);
                assert((ALIGN_GRANULARITY as int) % 16int == 0) by (nonlinear_arith);
            }
            assert(self.cache_at(1) == self.staging_buffer_cache_image);
            assert forall|j1: int, j2: int|
                0 <= j1 < self.staging_buffer_cache_image.pages@.len() && 0 <= j2
                    < self.staging_buffer_cache_image.pages@.len() && j1 != j2 implies i_disjoint(
                (#[trigger] self.staging_buffer_cache_image.pages@[j1]).base as int,
                self.staging_buffer_cache_image.pages@[j1].size as int,
                (#[trigger] self.staging_buffer_cache_image.pages@[j2]).base as int,
                self.staging_buffer_cache_image.pages@[j2].size as int,
            ) by {
                assert(i_disjoint(
                    s0.cache_at(1).pages@[j1].base as int,
                    s0.cache_at(1).pages@[j1].size as int,
                    s0.cache_at(1).pages@[j2].base as int,
                    s0.cache_at(1).pages@[j2].size as int,
                ));
            }
        }
        let res_block = self.mem.get_buffer_block_impl(
            &mut self.staging_buffer_cache_image,
            BUFFER_PAGE_SIZE,
            bytes,
            align,
        );
        let b1 = match res_block {
            Ok(b) => b,
            Err(_) => {
                proof {
                    assert(*self == s0);
                    crate::memory::lemma_free_ranges_preserved_refl(s0.staging_buffer_cache_image);
                    let psz = page_size_for(BUFFER_PAGE_SIZE, bytes);
                    if s0.mem.window_fits(2 * psz + ALIGN_GRANULARITY) {
                        crate::memory::lemma_align_up_monotone(
                            s0.mem.next_base + psz,
                            s0.mem.next_base + 2 * psz + ALIGN_GRANULARITY,
                            ALIGN_GRANULARITY as int,
                        );
                        assert(s0.mem.window_fits(psz));
                        assert(false);
                    }
                }
                return Err(ImageAllocationError::OutOfMemory);
            },
        };
        proof {
            VulkanAllocator::lemma_acquire_preserves(s0, *self, 1, b1);
        }
        let ghost s1 = *self;
        let requires_mip_maps = !flags.no_mipmaps();
        let mut mip_map_level_count: usize = 1;
        if requires_mip_maps {
            mip_map_level_count = image_mip_level_count(width as u32, height as u32);
            if !self.mem.optimal_rgba_image_blitting {
                mip_map_level_count = 1;
            }
        }
        let created = self.create_image_ex(
            width as u32,
            height as u32,
            depth as u32,
            mip_map_level_count,
        );
        match created {
            Ok((img, img_mem)) => {
                let ghost s2 = *self;
                proof {
                    assert(s1.block_ok(b1));
                    assert(s2.block_ok(b1) && i_disjoint(
                        b1.offset as int,
                        b1.size as int,
                        img_mem.base.offset as int,
                        img_mem.base.size as int,
                    ));
                }
                let addr = b1.addr();
                proof {
                    assert forall|t2: int, k2: u64, sx: int| s2.is_live(t2, k2, sx) implies i_disjoint(
                        (#[trigger] s2.live_block(t2, k2, sx)).offset as int,
                        s2.live_block(t2, k2, sx).size as int,
                        b1.offset as int,
                        b1.size as int,
                    ) && i_disjoint(
                        s2.live_block(t2, k2, sx).offset as int,
                        s2.live_block(t2, k2, sx).size as int,
                        img_mem.base.offset as int,
                        img_mem.base.size as int,
                    ) by {
                        assert(s0.is_live(t2, k2, sx));
                        assert(s0.block_ok(s0.live_block(t2, k2, sx)));
                        assert(s2.live_block(t2, k2, sx) == s0.live_block(t2, k2, sx));
                        assert(s1.block_ok(s0.live_block(t2, k2, sx)));
                    }
                    assert forall|t2: int| !s2.is_live(t2, addr, 0) by {
                        if s2.is_live(t2, addr, 0) {
                            let bb = s2.live_block(t2, addr, 0);
                            assert(s0.is_live(t2, addr, 0));
                            assert(bb == s0.live_block(t2, addr, 0));
                            assert(bb.addr_spec() == addr);
                            assert(bb.wf());
                            assert(bb.offset <= addr < bb.offset + bb.size);
                            assert(b1.offset <= addr < b1.offset + b1.size);
                            assert(i_disjoint(
                                bb.offset as int,
                                bb.size as int,
                                b1.offset as int,
                                b1.size as int,
                            ));
                            assert(false);
                        }
                    }
                    assert(!s2.is_live(kind_buffer(), addr, 0));
                    assert(!s2.is_live(kind_shader_storage(), addr, 0));
                    assert(!s2.is_live(kind_image(), addr, 0));
                }
                let entry = VulkanAllocatorImageCacheEntry {
                    staging: b1,
                    img,
                    img_mem,
                    data: VulkanAllocatorImageCacheEntryData {
                        width,
                        height,
                        depth,
                        is_3d_tex,
                        flags,
                        mip_map_count: mip_map_level_count,
                    },
                    is_flushed: FlushType::NotFlushed,
                };
                self.ptr_work.mapped_memory_cache_image.insert(addr, entry);
                proof {
                    VulkanAllocator::lemma_insert_entry(
                        s2,
                        *self,
                        kind_image(),
                        addr,
                        b1,
                        img_mem.base,
                    );
                }
                Ok(addr)
            },
            Err(e) => {
                proof {
                    let psz = page_size_for(BUFFER_PAGE_SIZE, bytes);
                    if s0.mem.image_memory_type_bits != 0 && s0.mem.window_fits(
                        2 * psz + ALIGN_GRANULARITY,
                    ) {
                        // the staging page took at most one window plus a
                        // granule, so the image page still fits
                        assert(page_size_for(IMG_SIZE1024X1024, bytes) == psz);
                        crate::memory::lemma_align_up_monotone(
                            s1.mem.next_base + psz,
                            s0.mem.next_base + 2 * psz + ALIGN_GRANULARITY,
                            ALIGN_GRANULARITY as int,
                        );
                        assert(s1.mem.window_fits(psz));
                        assert(false);
                    }
                    VulkanAllocator::lemma_release_pre(*self, 1, b1);
                    assert(self.cache_at(1) == self.staging_buffer_cache_image);
                }
                let ghost s2 = *self;
                self.staging_buffer_cache_image.release(&b1);
                proof {
                    assert forall|t2: int, k2: u64, sx: int| s2.is_live(t2, k2, sx) implies i_disjoint(
                        (#[trigger] s2.live_block(t2, k2, sx)).offset as int,
                        s2.live_block(t2, k2, sx).size as int,
                        b1.offset as int,
                        b1.size as int,
                    ) by {
                        assert(s0.is_live(t2, k2, sx));
                        assert(s0.block_ok(s0.live_block(t2, k2, sx)));
                        assert(s2.live_block(t2, k2, sx) == s0.live_block(t2, k2, sx));
                    }
                    VulkanAllocator::lemma_release_preserves(s2, *self, 1, b1);
                    // the carved staging block went back to its cache
                    assert forall|j1: int, j2: int|
                        0 <= j1 < s0.staging_buffer_cache_image.pages@.len() && 0 <= j2
                            < s0.staging_buffer_cache_image.pages@.len() && j1 != j2
                        implies i_disjoint(
                        (#[trigger] s0.staging_buffer_cache_image.pages@[j1]).base as int,
                        s0.staging_buffer_cache_image.pages@[j1].size as int,
                        (#[trigger] s0.staging_buffer_cache_image.pages@[j2]).base as int,
                        s0.staging_buffer_cache_image.pages@[j2].size as int,
                    ) by {
                        assert(i_disjoint(
                            s0.cache_at(1).pages@[j1].base as int,
                            s0.cache_at(1).pages@[j1].size as int,
                            s0.cache_at(1).pages@[j2].base as int,
                            s0.cache_at(1).pages@[j2].size as int,
                        ));
                    }
                    crate::memory::lemma_carve_then_release_preserves_free(
                        s0.staging_buffer_cache_image,
                        s1.staging_buffer_cache_image,
                        self.staging_buffer_cache_image,
                        b1,
                        s0.mem.next_base as int,
                    );
                }
                match e {
                    ImageAllocationError::NoMemoryHeap => Err(ImageAllocationError::NoMemoryHeap),
                    _ => Err(ImageAllocationError::OutOfMemory),
                }
            },
        }
    }
}

} // verus!

verus! {

impl VulkanAllocator {
    /// Dropping all image caches keeps the invariant: live image entries
    /// keep their memory, whose windows are never reissued.
    proof fn lemma_clear_image_caches(s1: VulkanAllocator, s2: VulkanAllocator)
        requires
            s1.wf(),
            s2.mem == s1.mem,
            s2.limits == s1.limits,
            s2.shader_storage_descr_pools == s1.shader_storage_descr_pools,
            s2.staging_buffer_cache == s1.staging_buffer_cache,
            s2.staging_buffer_cache_image == s1.staging_buffer_cache_image,
            s2.vertex_buffer_cache == s1.vertex_buffer_cache,
            s2.shader_storage_cache == s1.shader_storage_cache,
            s2.image_buffer_caches@.len() == 0,
            s2.ptr_work.mapped_memory_cache@ == s1.ptr_work.mapped_memory_cache@,
            s2.ptr_work.mapped_memory_cache_shader_storage@
                == s1.ptr_work.mapped_memory_cache_shader_storage@,
            s2.ptr_work.mapped_memory_cache_image@ == s1.ptr_work.mapped_memory_cache_image@,
        ensures
            s2.wf(),
    {
        assert(s2.n_caches() == 4);
        assert forall|i: int| 0 <= i < 4 implies #[trigger] s2.cache_at(i) == s1.cache_at(i) by {}
        assert forall|x: MemoryBlock| #[trigger] s1.block_ok(x) implies s2.block_ok(x) by {
            assert forall|i: int, j: int, m: int|
                0 <= i < s2.n_caches() && 0 <= j < s2.cache_at(i).pages@.len() && 0 <= m
                    < s2.cache_at(i).pages@[j].free@.len() implies i_disjoint(
                (#[trigger] s2.cache_at(i).pages@[j].free@[m]).0 as int,
                s2.cache_at(i).pages@[j].free@[m].1 as int,
                x.offset as int,
                x.size as int,
            ) by {
                assert(s2.cache_at(i) == s1.cache_at(i));
                assert(s1.free_clear(x.offset as int, x.size as int));
            }
            assert forall|i: int, j: int|
                0 <= i < s2.n_caches() && 0 <= j < s2.cache_at(i).pages@.len() && (
                #[trigger] s2.cache_at(i).pages@[j]).base == x.page_base implies s2.cache_at(
                i,
            ).pages@[j].size == x.page_size by {
                assert(s2.cache_at(i) == s1.cache_at(i));
                assert(s1.page_size_agrees(x));
            }
        }
        assert forall|t2: int, k2: u64, sx: int| s2.is_live(t2, k2, sx) implies s2.block_ok(
            #[trigger] s2.live_block(t2, k2, sx),
        ) && s2.live_block(t2, k2, sx).host_visible == (sx == 0) by {
            assert(s1.is_live(t2, k2, sx));
            assert(s2.live_block(t2, k2, sx) == s1.live_block(t2, k2, sx));
            assert(s1.block_ok(s1.live_block(t2, k2, sx)));
        }
        assert forall|t2: int, k2: u64| s2.is_live(t2, k2, 0) implies (#[trigger] s2.live_block(
            t2,
            k2,
            0,
        )).addr_spec() == k2 by {
            assert(s1.live_block(t2, k2, 0).addr_spec() == k2);
        }
        assert forall|t1x: int, k1: u64, s1x: int, t2x: int, k2: u64, s2x: int|
            s2.is_live(t1x, k1, s1x) && s2.is_live(t2x, k2, s2x) && (t1x != t2x || k1 != k2 || s1x
                != s2x) implies i_disjoint(
            (#[trigger] s2.live_block(t1x, k1, s1x)).offset as int,
            s2.live_block(t1x, k1, s1x).size as int,
            (#[trigger] s2.live_block(t2x, k2, s2x)).offset as int,
            s2.live_block(t2x, k2, s2x).size as int,
        ) by {
            assert(s1.is_live(t1x, k1, s1x) && s1.is_live(t2x, k2, s2x));
            assert(s2.live_block(t1x, k1, s1x) == s1.live_block(t1x, k1, s1x));
            assert(s2.live_block(t2x, k2, s2x) == s1.live_block(t2x, k2, s2x));
        }
        assert(s2.entries_wf());
        assert(s2.entry_shapes_wf());
        assert forall|i: int| 0 <= i < s2.n_caches() implies (#[trigger] s2.cache_at(i)).pages_wf()
            && s2.cache_at(i).below(s2.mem.next_base as int) by {
            assert(s2.cache_at(i) == s1.cache_at(i));
        }
        assert forall|i1: int, j1: int, i2: int, j2: int|
            0 <= i1 < s2.n_caches() && 0 <= j1 < s2.cache_at(i1).pages@.len() && 0 <= i2
                < s2.n_caches() && 0 <= j2 < s2.cache_at(i2).pages@.len() && (i1 != i2 || j1 != j2)
            implies i_disjoint(
            (#[trigger] s2.cache_at(i1).pages@[j1]).base as int,
            s2.cache_at(i1).pages@[j1].size as int,
            (#[trigger] s2.cache_at(i2).pages@[j2]).base as int,
            s2.cache_at(i2).pages@[j2].size as int,
        ) by {
            assert(s2.cache_at(i1) == s1.cache_at(i1));
            assert(s2.cache_at(i2) == s1.cache_at(i2));
        }
        assert(s2.caches_wf());
        assert(s2.wf());
    }

    /// Releases all image page caches; used on resource-scope teardown.
    /// Image entries still registered keep their memory: their windows are
    /// never handed out again.
    pub fn destroy_caches(&mut self)
        requires
            old(self).wf(),
        ensures
            final(self).wf(),
            final(self).limits == old(self).limits,
            final(self).image_buffer_caches@.len() == 0,
            final(self).ptr_work.mapped_memory_cache@ == old(self).ptr_work.mapped_memory_cache@,
            final(self).ptr_work.mapped_memory_cache_shader_storage@ == old(self).ptr_work.mapped_memory_cache_shader_storage@,
            final(self).ptr_work.mapped_memory_cache_image@ == old(self).ptr_work.mapped_memory_cache_image@,
            final(self).staging_buffer_cache == old(self).staging_buffer_cache,
            final(self).staging_buffer_cache_image == old(self).staging_buffer_cache_image,
            final(self).vertex_buffer_cache == old(self).vertex_buffer_cache,
            final(self).shader_storage_cache == old(self).shader_storage_cache,
    {
        let ghost s0 = *self;
        self.image_buffer_caches.clear();
        proof {
            VulkanAllocator::lemma_clear_image_caches(s0, *self);
        }
    }

    /// Unregisters and returns the buffer entry under `mem`; the caller
    /// takes ownership of its blocks (to finish a buffer object from them).
    pub fn get_and_remove_mem_block(&mut self, mem: u64) -> (r: Result<
        VulkanAllocatorBufferCacheEntry,
        (),
    >)
        requires
            old(self).wf(),
        ensures
            final(self).wf(),
            final(self).limits == old(self).limits,
            r is Ok <==> old(self).spec_mem_block_exists(mem),
            match r {
                Ok(e) => {
                    &&& e == old(self).ptr_work.mapped_memory_cache@[mem]
                    &&& final(self).ptr_work.mapped_memory_cache@ == old(self).ptr_work.mapped_memory_cache@.remove(mem)
                },
                Err(_) => final(self).ptr_work.mapped_memory_cache@ == old(self).ptr_work.mapped_memory_cache@,
            },
            final(self).ptr_work.mapped_memory_cache_shader_storage@ == old(self).ptr_work.mapped_memory_cache_shader_storage@,
            final(self).ptr_work.mapped_memory_cache_image@ == old(self).ptr_work.mapped_memory_cache_image@,
    {
        let ghost s0 = *self;
        let res = self.ptr_work.mapped_memory_cache.remove(&mem);
        proof {
            VulkanAllocator::lemma_remove_entry(s0, *self, kind_buffer(), mem);
            if !s0.spec_mem_block_exists(mem) {
                assert(self.ptr_work.mapped_memory_cache@ =~= s0.ptr_work.mapped_memory_cache@);
            }
        }
        match res {
            Some(entry) => Ok(entry),
            None => Err(()),
        }
    }

    /// Unregisters and returns the shader-storage entry under `mem`.
    pub fn get_and_remove_shader_storage_mem_block(&mut self, mem: u64) -> (r: Result<
        VulkanAllocatorShaderStorageCacheEntry,
        (),
    >)
        requires
            old(self).wf(),
        ensures
            final(self).wf(),
            final(self).limits == old(self).limits,
            r is Ok <==> old(self).spec_mem_block_shader_storage_exists(mem),
            match r {
                Ok(e) => {
                    &&& e == old(self).ptr_work.mapped_memory_cache_shader_storage@[mem]
                    &&& final(self).ptr_work.mapped_memory_cache_shader_storage@ == old(self).ptr_work.mapped_memory_cache_shader_storage@.remove(mem)
                },
                Err(_) => final(self).ptr_work.mapped_memory_cache_shader_storage@ == old(self).ptr_work.mapped_memory_cache_shader_storage@,
            },
            final(self).ptr_work.mapped_memory_cache@ == old(self).ptr_work.mapped_memory_cache@,
            final(self).ptr_work.mapped_memory_cache_image@ == old(self).ptr_work.mapped_memory_cache_image@,
    {
        let ghost s0 = *self;
        let res = self.ptr_work.mapped_memory_cache_shader_storage.remove(&mem);
        proof {
            VulkanAllocator::lemma_remove_entry(s0, *self, kind_shader_storage(), mem);
            if !s0.spec_mem_block_shader_storage_exists(mem) {
                assert(self.ptr_work.mapped_memory_cache_shader_storage@
                    =~= s0.ptr_work.mapped_memory_cache_shader_storage@);
            }
        }
        match res {
            Some(entry) => Ok(entry),
            None => Err(()),
        }
    }

    /// Unregisters and returns the image entry under `mem`.
    pub fn get_and_remove_mem_block_image(&mut self, mem: u64) -> (r: Result<
        VulkanAllocatorImageCacheEntry,
        (),
    >)
        requires
            old(self).wf(),
        ensures
            final(self).wf(),
            final(self).limits == old(self).limits,
            r is Ok <==> old(self).spec_mem_block_image_exists(mem),
            match r {
                Ok(e) => {
                    &&& e == old(self).ptr_work.mapped_memory_cache_image@[mem]
                    &&& final(self).ptr_work.mapped_memory_cache_image@ == old(self).ptr_work.mapped_memory_cache_image@.remove(mem)
                },
                Err(_) => final(self).ptr_work.mapped_memory_cache_image@ == old(self).ptr_work.mapped_memory_cache_image@,
            },
            final(self).ptr_work.mapped_memory_cache@ == old(self).ptr_work.mapped_memory_cache@,
            final(self).ptr_work.mapped_memory_cache_shader_storage@ == old(self).ptr_work.mapped_memory_cache_shader_storage@,
    {
        let ghost s0 = *self;
        let res = self.ptr_work.mapped_memory_cache_image.remove(&mem);
        proof {
            VulkanAllocator::lemma_remove_entry(s0, *self, kind_image(), mem);
            if !s0.spec_mem_block_image_exists(mem) {
                assert(self.ptr_work.mapped_memory_cache_image@
                    =~= s0.ptr_work.mapped_memory_cache_image@);
            }
        }
        match res {
            Some(entry) => Ok(entry),
            None => Err(()),
        }
    }

    /// The shape the image allocation under `mem` was requested with.
    pub fn mem_image_cache_entry(&self, mem: u64) -> (r: VulkanAllocatorImageCacheEntryData)
        requires
            self.wf(),
            self.spec_mem_block_image_exists(mem),
        ensures
            r == self.ptr_work.mapped_memory_cache_image@[mem].data,
    {
        match self.ptr_work.mapped_memory_cache_image.get(&mem) {
            Some(entry) => entry.data,
            None => unreached(),
        }
    }
}

} // verus!

verus! {

/// Whether a backend memory value may be handed to the allocator: driver
/// memory must be registered under the kind its usage names, and a byte
/// vector must have an allocatable shape.
pub open spec fn backend_memory_alloc_ok(s: VulkanAllocator, m: GraphicsBackendMemory) -> bool {
    match m.alloc {
        GraphicsBackendMemoryAllocation::Static { addr, size } => {
            match m.usage {
                GraphicsMemoryAllocationType::TextureRgbaU8 { .. } => s.spec_mem_block_image_exists(
                    addr,
                ),
                GraphicsMemoryAllocationType::TextureRgbaU82dArray { .. } => s.spec_mem_block_image_exists(
                    addr,
                ),
                GraphicsMemoryAllocationType::VertexBuffer { .. } => s.spec_mem_block_exists(addr),
                GraphicsMemoryAllocationType::ShaderStorage { .. } => s.spec_mem_block_shader_storage_exists(
                    addr,
                ),
            }
        },
        GraphicsBackendMemoryAllocation::Vector(v) => {
            match m.usage {
                GraphicsMemoryAllocationType::TextureRgbaU8 { width, height, .. } => 1 <= width && 1
                    <= height,
                GraphicsMemoryAllocationType::TextureRgbaU82dArray { width, height, depth, .. } => 1
                    <= width && 1 <= height && 1 <= depth,
                GraphicsMemoryAllocationType::VertexBuffer { .. } => 1 <= v.len()
                    <= MAX_ALLOC_SIZE,
                GraphicsMemoryAllocationType::ShaderStorage { .. } => 1 <= v.len()
                    <= MAX_ALLOC_SIZE,
            }
        },
    }
}

impl VulkanAllocator {
    /// Turns a backend memory value into driver memory: driver memory is
    /// checked against the registry of its kind and handed back; a byte
    /// vector gets a fresh allocation of the matching kind. On failure the
    /// vector is returned alongside the error.
    pub fn memory_to_internal_memory(&mut self, mem: GraphicsBackendMemory) -> (r: Result<
        VulkanDeviceInternalMemory,
        (GraphicsBackendMemory, AllocationError),
    >)
        requires
            old(self).wf(),
            backend_memory_alloc_ok(*old(self), mem),
        ensures
            final(self).wf(),
            final(self).limits == old(self).limits,
            match r {
                Ok(out) => {
                    match mem.alloc {
                        GraphicsBackendMemoryAllocation::Static { addr, size } => {
                            &&& out.addr == addr
                            &&& out.size == size
                            &&& *final(self) == *old(self)
                        },
                        GraphicsBackendMemoryAllocation::Vector(v) => {
                            match mem.usage {
                                GraphicsMemoryAllocationType::VertexBuffer { .. } => {
                                    &&& final(self).spec_mem_block_exists(out.addr)
                                    &&& out.size == v.len()
                                },
                                GraphicsMemoryAllocationType::ShaderStorage { .. } => {
                                    &&& final(self).spec_mem_block_shader_storage_exists(out.addr)
                                    &&& out.size == v.len()
                                },
                                GraphicsMemoryAllocationType::TextureRgbaU8 { width, height, .. } => {
                                    &&& final(self).spec_mem_block_image_exists(out.addr)
                                    &&& out.size == (width as int) * (height as int) * 4
                                },
                                GraphicsMemoryAllocationType::TextureRgbaU82dArray {
                                    width,
                                    height,
                                    depth,
                                    ..
                                } => {
                                    &&& final(self).spec_mem_block_image_exists(out.addr)
                                    &&& out.size == (width as int) * (height as int) * (
                                    depth as int) * 4
                                },
                            }
                        },
                    }
                },
                Err((back, e)) => {
                    &&& back.usage == mem.usage
                    &&& back.alloc == mem.alloc
                    &&& final(self).ptr_work.mapped_memory_cache@ == old(self).ptr_work.mapped_memory_cache@
                    &&& final(self).ptr_work.mapped_memory_cache_shader_storage@ == old(self).ptr_work.mapped_memory_cache_shader_storage@
                    &&& final(self).ptr_work.mapped_memory_cache_image@ == old(self).ptr_work.mapped_memory_cache_image@
                },
            },
            // registered driver memory is always handed back; a vector is
            // owed an allocation under the same conditions as the allocator
            // it is dispatched to
            mem.alloc is Static ==> r is Ok,
            match mem.alloc {
                GraphicsBackendMemoryAllocation::Static { .. } => true,
                GraphicsBackendMemoryAllocation::Vector(v) => {
                    match mem.usage {
                        GraphicsMemoryAllocationType::VertexBuffer { .. } => old(self).mem.window_fits(
                            2 * page_size_for(BUFFER_PAGE_SIZE, v.len() as u64)
                                + ALIGN_GRANULARITY,
                        ) ==> r is Ok,
                        GraphicsMemoryAllocationType::ShaderStorage { .. } => old(self).mem.window_fits(
                            2 * page_size_for(BUFFER_PAGE_SIZE, v.len() as u64)
                                + ALIGN_GRANULARITY,
                        ) ==> r is Ok,
                        GraphicsMemoryAllocationType::TextureRgbaU8 { width, height, .. } => (
                        !dims_too_big(old(self).limits, width, height, 1) && old(self).mem.image_memory_type_bits != 0 && old(self).mem.window_fits(
                            2 * page_size_for(
                                BUFFER_PAGE_SIZE,
                                ((width as int) * (height as int) * 1 * 4) as u64,
                            ) + ALIGN_GRANULARITY,
                        )) ==> r is Ok,
                        GraphicsMemoryAllocationType::TextureRgbaU82dArray {
                            width,
                            height,
                            depth,
                            ..
                        } => (!dims_too_big(old(self).limits, width, height, depth) && old(self).mem.image_memory_type_bits != 0 && old(self).mem.window_fits(
                            2 * page_size_for(
                                BUFFER_PAGE_SIZE,
                                ((width as int) * (height as int) * (depth as int) * 4) as u64,
                            ) + ALIGN_GRANULARITY,
                        )) ==> r is Ok,
                    }
                },
            },
    {
        let GraphicsBackendMemory { alloc, usage } = mem;
        match alloc {
            GraphicsBackendMemoryAllocation::Static { addr, size } => {
                let exists_ok = match usage {
                    GraphicsMemoryAllocationType::TextureRgbaU8 { .. } => self.mem_block_image_exists(
                        addr,
                    ),
                    GraphicsMemoryAllocationType::TextureRgbaU82dArray {
                        ..
                    } => self.mem_block_image_exists(addr),
                    GraphicsMemoryAllocationType::VertexBuffer { .. } => self.mem_block_exists(
                        addr,
                    ),
                    GraphicsMemoryAllocationType::ShaderStorage {
                        ..
                    } => self.mem_block_shader_storage_exists(addr),
                };
                if exists_ok {
                    Ok(VulkanDeviceInternalMemory { addr, size })
                } else {
                    proof {
                        assert(false);
                    }
                    Err(
                        (
                            GraphicsBackendMemory {
                                alloc: GraphicsBackendMemoryAllocation::Static { addr, size },
                                usage,
                            },
                            AllocationError::OutOfMemory,
                        ),
                    )
                }
            },
            GraphicsBackendMemoryAllocation::Vector(v) => {
                match usage {
                    GraphicsMemoryAllocationType::VertexBuffer { .. } => {
                        let len = v.len() as u64;
                        match self.get_staging_buffer_for_mem_alloc(len) {
                            Ok(addr) => Ok(VulkanDeviceInternalMemory { addr, size: len }),
                            Err(e) => Err(
                                (
                                    GraphicsBackendMemory {
                                        alloc: GraphicsBackendMemoryAllocation::Vector(v),
                                        usage,
                                    },
                                    AllocationError::from_buffer_error(e),
                                ),
                            ),
                        }
                    },
                    GraphicsMemoryAllocationType::ShaderStorage { .. } => {
                        let len = v.len() as u64;
                        match self.get_staging_buffer_for_shader_storage_mem_alloc(len) {
                            Ok(addr) => Ok(VulkanDeviceInternalMemory { addr, size: len }),
                            Err(e) => Err(
                                (
                                    GraphicsBackendMemory {
                                        alloc: GraphicsBackendMemoryAllocation::Vector(v),
                                        usage,
                                    },
                                    AllocationError::from_buffer_error(e),
                                ),
                            ),
                        }
                    },
                    GraphicsMemoryAllocationType::TextureRgbaU8 { width, height, flags } => {
                        match self.get_staging_buffer_image_for_mem_alloc(
                            width,
                            height,
                            1,
                            false,
                            flags,
                        ) {
                            Ok(addr) => {
                                proof {
                                    assert((width as int) * (height as int) * 1int * 4
                                        <= MAX_ALLOC_SIZE && (width as int) * (height as int) * 4
                                        == (width as int) * (height as int) * 1int * 4)
                                        by (nonlinear_arith)
                                        requires
                                            1 <= width <= 16384,
                                            1 <= height <= 16384,
                                            MAX_ALLOC_SIZE == 0x4000_0000,
                                    ;
                                }
                                let size: u64 = (width as u64) * (height as u64) * 4;
                                Ok(VulkanDeviceInternalMemory { addr, size })
                            },
                            Err(e) => Err(
                                (
                                    GraphicsBackendMemory {
                                        alloc: GraphicsBackendMemoryAllocation::Vector(v),
                                        usage,
                                    },
                                    AllocationError::from_image_error(e),
                                ),
                            ),
                        }
                    },
                    GraphicsMemoryAllocationType::TextureRgbaU82dArray {
                        width,
                        height,
                        depth,
                        flags,
                    } => {
                        match self.get_staging_buffer_image_for_mem_alloc(
                            width,
                            height,
                            depth,
                            true,
                            flags,
                        ) {
                            Ok(addr) => {
                                proof {
                                    let mx = self.limits.max_texture_size as int;
                                    assert(self.limits.wf());
                                    assert((width as int) * (height as int) * (depth as int) <= mx
                                        * mx);
                                    assert(mx * mx <= 16384int * 16384) by (nonlinear_arith)
                                        requires
                                            1 <= mx <= 16384,
                                    ;
                                    assert((width as int) * (height as int) * (depth as int) * 4
                                        <= MAX_ALLOC_SIZE && (width as int) * (height as int) >= 1
                                        && (width as int) * (height as int) <= 16384int * 16384
                                        && (width as int) * (height as int) * (depth as int) >= 1)
                                        by (nonlinear_arith)
                                        requires
                                            1 <= width <= 16384,
                                            1 <= height <= 16384,
                                            1 <= depth <= 16384,
                                            (width as int) * (height as int) * (depth as int) <= (
                                            16384int) * 16384,
                                            MAX_ALLOC_SIZE == 0x4000_0000,
                                    ;
                                }
                                let size: u64 = (width as u64) * (height as u64) * (depth as u64)
                                    * 4;
                                Ok(VulkanDeviceInternalMemory { addr, size })
                            },
                            Err(e) => Err(
                                (
                                    GraphicsBackendMemory {
                                        alloc: GraphicsBackendMemoryAllocation::Vector(v),
                                        usage,
                                    },
                                    AllocationError::from_image_error(e),
                                ),
                            ),
                        }
                    },
                }
            },
        }
    }

    /// Flushes whichever entry the driver memory's address is registered
    /// under, probing the image, buffer and shader-storage registries.
    pub fn try_flush_mem(&mut self, mem: &GraphicsBackendMemory, do_expensive_flushing: bool) -> (r:
        Result<Option<(Fence, CommandBuffers)>, FlushError>)
        requires
            old(self).wf(),
        ensures
            final(self).wf(),
            final(self).limits == old(self).limits,
            r is Ok <==> (match mem.alloc {
                GraphicsBackendMemoryAllocation::Static { addr, .. } => {
                    ||| old(self).spec_mem_block_exists(addr)
                    ||| old(self).spec_mem_block_shader_storage_exists(addr)
                    ||| old(self).spec_mem_block_image_exists(addr)
                },
                GraphicsBackendMemoryAllocation::Vector(_) => false,
            }),
            match r {
                Ok(ret) => {
                    &&& (ret is Some <==> do_expensive_flushing)
                    &&& (do_expensive_flushing ==> ret == Some(
                        (old(self).fence, old(self).local.command_buffers),
                    ))
                    &&& flush_touches_no_memory(*old(self), *final(self))
                    &&& match mem.alloc {
                        GraphicsBackendMemoryAllocation::Static { addr, .. } => {
                            &&& (old(self).spec_mem_block_exists(addr) ==> {
                                &&& final(self).ptr_work.mapped_memory_cache@ == old(self).ptr_work.mapped_memory_cache@.insert(
                                    addr,
                                    final(self).ptr_work.mapped_memory_cache@[addr],
                                )
                                &&& {
                                    let e0 = old(self).ptr_work.mapped_memory_cache@[addr];
                                    let e1 = final(self).ptr_work.mapped_memory_cache@[addr];
                                    &&& e1.staging == e0.staging
                                    &&& e1.device == e0.device
                                    &&& e1.is_flushed == flushed_state(
                                        e0.is_flushed,
                                        do_expensive_flushing,
                                    )
                                }
                                &&& final(self).ptr_work.mapped_memory_cache_shader_storage@
                                    == old(self).ptr_work.mapped_memory_cache_shader_storage@
                                &&& final(self).ptr_work.mapped_memory_cache_image@ == old(self).ptr_work.mapped_memory_cache_image@
                            })
                            &&& (old(self).spec_mem_block_image_exists(addr) ==> {
                                &&& final(self).ptr_work.mapped_memory_cache_image@ == old(self).ptr_work.mapped_memory_cache_image@.insert(
                                    addr,
                                    final(self).ptr_work.mapped_memory_cache_image@[addr],
                                )
                                &&& {
                                    let e0 = old(self).ptr_work.mapped_memory_cache_image@[addr];
                                    let e1 = final(self).ptr_work.mapped_memory_cache_image@[addr];
                                    &&& e1.staging == e0.staging
                                    &&& e1.img == e0.img
                                    &&& e1.img_mem == e0.img_mem
                                    &&& e1.data == e0.data
                                    &&& e1.is_flushed == flushed_state(
                                        e0.is_flushed,
                                        do_expensive_flushing,
                                    )
                                }
                                &&& final(self).ptr_work.mapped_memory_cache@ == old(self).ptr_work.mapped_memory_cache@
                                &&& final(self).ptr_work.mapped_memory_cache_shader_storage@
                                    == old(self).ptr_work.mapped_memory_cache_shader_storage@
                            })
                            &&& (old(self).spec_mem_block_shader_storage_exists(addr) ==> {
                                &&& final(self).ptr_work.mapped_memory_cache_shader_storage@
                                    == old(self).ptr_work.mapped_memory_cache_shader_storage@.insert(
                                    addr,
                                    final(self).ptr_work.mapped_memory_cache_shader_storage@[addr],
                                )
                                &&& {
                                    let e0 = old(self).ptr_work.mapped_memory_cache_shader_storage@[addr];
                                    let e1 = final(self).ptr_work.mapped_memory_cache_shader_storage@[addr];
                                    &&& e1.base.staging == e0.base.staging
                                    &&& e1.base.device == e0.base.device
                                    &&& e1.base.is_flushed == flushed_state(
                                        e0.base.is_flushed,
                                        do_expensive_flushing,
                                    )
                                    &&& (!do_expensive_flushing ==> e1.descriptor_sets
                                        == e0.descriptor_sets)
                                    &&& (do_expensive_flushing && e0.descriptor_sets is Some
                                        ==> e1.descriptor_sets == e0.descriptor_sets)
                                    &&& (do_expensive_flushing && e0.descriptor_sets is None
                                        ==> e1.descriptor_sets is Some)
                                }
                                &&& final(self).ptr_work.mapped_memory_cache@ == old(self).ptr_work.mapped_memory_cache@
                                &&& final(self).ptr_work.mapped_memory_cache_image@ == old(self).ptr_work.mapped_memory_cache_image@
                            })
                        },
                        GraphicsBackendMemoryAllocation::Vector(_) => false,
                    }
                },
                Err(e) => {
                    &&& e == FlushError::LookupError
                    &&& *final(self) == *old(self)
                },
            },
    {
        match &mem.alloc {
            GraphicsBackendMemoryAllocation::Static { addr, size } => {
                let a = *addr;
                proof {
                    self.lemma_registered_pointers_unique(a);
                }
                if self.mem_block_image_exists(a) {
                    self.flush_img_memory(a, do_expensive_flushing)
                } else if self.mem_block_exists(a) {
                    self.flush_buffer_memory(a, do_expensive_flushing)
                } else if self.mem_block_shader_storage_exists(a) {
                    self.flush_shader_storage_memory(a, do_expensive_flushing)
                } else {
                    Err(FlushError::LookupError)
                }
            },
            GraphicsBackendMemoryAllocation::Vector(_) => {
                // a plain vector is not driver memory; nothing to flush
                Err(FlushError::LookupError)
            },
        }
    }

    /// An address is the sole identifier of a live entry: it is never
    /// registered for two kinds at once.
    pub proof fn lemma_registered_pointers_unique(self, p: u64)
        requires
            self.wf(),
        ensures
            !(self.spec_mem_block_exists(p) && self.spec_mem_block_shader_storage_exists(p)),
            !(self.spec_mem_block_exists(p) && self.spec_mem_block_image_exists(p)),
            !(self.spec_mem_block_shader_storage_exists(p) && self.spec_mem_block_image_exists(p)),
    {
        assert forall|t1x: int, t2x: int|
            t1x != t2x && self.is_live(t1x, p, 0) implies !self.is_live(t2x, p, 0) by {
            if self.is_live(t1x, p, 0) && self.is_live(t2x, p, 0) {
                let bx = self.live_block(t1x, p, 0);
                let by = self.live_block(t2x, p, 0);
                assert(bx.addr_spec() == p && by.addr_spec() == p);
                assert(bx.wf() && by.wf());
                assert(bx.offset <= p < bx.offset + bx.size);
                assert(by.offset <= p < by.offset + by.size);
                assert(i_disjoint(
                    bx.offset as int,
                    bx.size as int,
                    by.offset as int,
                    by.size as int,
                ));
                assert(false);
            }
        }
        assert(self.spec_mem_block_exists(p) == self.is_live(kind_buffer(), p, 0));
        assert(self.spec_mem_block_shader_storage_exists(p) == self.is_live(
            kind_shader_storage(),
            p,
            0,
        ));
        assert(self.spec_mem_block_image_exists(p) == self.is_live(kind_image(), p, 0));
    }
}

/// Flush states only ever advance along `NotFlushed ->
/// StagingBufferFlushed -> FullyCreated`: whatever state an entry is in,
/// flushing never moves it back, and a completed entry stays completed.
pub proof fn lemma_flush_state_monotonic(from: FlushType, full_flush: bool)
    ensures
        flush_rank(flushed_state(from, full_flush)) >= flush_rank(from),
        flushed_state(FlushType::FullyCreated, full_flush) == FlushType::FullyCreated,
{
}

} // verus!

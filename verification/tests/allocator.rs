use vulkan_alloc::commands::{
    GraphicsBackendMemory, GraphicsBackendMemoryAllocation, GraphicsMemoryAllocationType, TexFlags,
    TEXFLAG_NOMIPMAPS,
};
use vulkan_alloc::descriptors::DescriptorSetLayout;
use vulkan_alloc::limits::Limits;
use vulkan_alloc::memory::ADDR_SPACE_END;
use vulkan_alloc::vulkan_allocator::{FlushError, FlushType, VulkanAllocator};
use vulkan_alloc::vulkan_mem::{AllocationError, ImageAllocationError, Memory};
use vulkan_alloc::vulkan_types::DescriptorPoolType;

fn new_allocator() -> VulkanAllocator {
    let mut mem = Memory::new(1, true);
    let layout = VulkanAllocator::create_shader_storage_read_only_descriptor_set_layout(&mut mem, 1);
    let limits = Limits::new(16384, 64, 16).expect("limits are valid");
    VulkanAllocator::new(mem, limits, layout)
}

#[test]
fn buffer_alloc_registers_pointer() {
    let mut a = new_allocator();
    let addr = a.get_staging_buffer_for_mem_alloc(1024).expect("allocation fits");
    assert!(a.mem_block_exists(addr));
    assert!(!a.mem_block_shader_storage_exists(addr));
    assert!(!a.mem_block_image_exists(addr));
    let entry = a.ptr_work.mapped_memory_cache.get(&addr).expect("registered");
    assert_eq!(entry.is_flushed, FlushType::NotFlushed);
    assert_eq!(entry.staging.size - entry.staging.pad, 1024);
    assert_eq!(entry.device.size - entry.device.pad, 1024);
}

#[test]
fn pointers_are_unique_across_kinds() {
    let mut a = new_allocator();
    let b = a.get_staging_buffer_for_mem_alloc(64).expect("fits");
    let s = a
        .get_staging_buffer_for_shader_storage_mem_alloc(64)
        .expect("fits");
    let i = a
        .get_staging_buffer_image_for_mem_alloc(4, 4, 1, false, TexFlags::empty())
        .expect("fits");
    assert_ne!(b, s);
    assert_ne!(b, i);
    assert_ne!(s, i);
    assert!(a.mem_block_exists(b) && !a.mem_block_shader_storage_exists(b) && !a.mem_block_image_exists(b));
    assert!(a.mem_block_shader_storage_exists(s) && !a.mem_block_exists(s));
    assert!(a.mem_block_image_exists(i) && !a.mem_block_exists(i));
}

#[test]
fn free_returns_blocks_and_reuses_page() {
    let mut a = new_allocator();
    let addr = a.get_staging_buffer_for_mem_alloc(4096).expect("fits");
    assert_eq!(a.staging_buffer_cache.pages.len(), 1);
    assert_eq!(a.vertex_buffer_cache.pages.len(), 1);
    a.free_mem_raw(addr);
    assert!(!a.mem_block_exists(addr));
    // allocating the same size again is served from the same pages
    let _addr2 = a.get_staging_buffer_for_mem_alloc(4096).expect("fits");
    assert_eq!(a.staging_buffer_cache.pages.len(), 1);
    assert_eq!(a.vertex_buffer_cache.pages.len(), 1);
}

#[test]
fn oversized_request_forces_new_page_and_small_ones_reuse() {
    let mut a = new_allocator();
    let _small = a.get_staging_buffer_for_mem_alloc(16).expect("fits");
    assert_eq!(a.staging_buffer_cache.pages.len(), 1);
    // one byte more than the page size class cannot fit in the free space
    let _big = a
        .get_staging_buffer_for_mem_alloc(8 * 1024 * 1024 + 1)
        .expect("a fresh page serves it");
    assert_eq!(a.staging_buffer_cache.pages.len(), 2);
    // two small allocations are carved from existing free space
    let _s1 = a.get_staging_buffer_for_mem_alloc(16).expect("fits");
    let _s2 = a.get_staging_buffer_for_mem_alloc(16).expect("fits");
    assert_eq!(a.staging_buffer_cache.pages.len(), 2);
}

#[test]
fn image_flush_advances_state_and_returns_fence_only_when_full() {
    let mut a = new_allocator();
    let ptr = a
        .get_staging_buffer_image_for_mem_alloc(256, 256, 1, false, TexFlags::empty())
        .expect("fits");
    assert_eq!(
        a.ptr_work.mapped_memory_cache_image.get(&ptr).unwrap().is_flushed,
        FlushType::NotFlushed
    );
    let first = a.flush_img_memory(ptr, false).expect("registered");
    assert!(first.is_none());
    assert_eq!(
        a.ptr_work.mapped_memory_cache_image.get(&ptr).unwrap().is_flushed,
        FlushType::StagingBufferFlushed
    );
    let second = a.flush_img_memory(ptr, true).expect("registered");
    assert!(second.is_some());
    assert_eq!(
        a.ptr_work.mapped_memory_cache_image.get(&ptr).unwrap().is_flushed,
        FlushType::FullyCreated
    );
    // a later staging-only flush never regresses the state
    let third = a.flush_img_memory(ptr, false).expect("registered");
    assert!(third.is_none());
    assert_eq!(
        a.ptr_work.mapped_memory_cache_image.get(&ptr).unwrap().is_flushed,
        FlushType::FullyCreated
    );
}

#[test]
fn buffer_flush_states_are_monotonic() {
    let mut a = new_allocator();
    let ptr = a.get_staging_buffer_for_mem_alloc(128).expect("fits");
    assert!(a.flush_buffer_memory(ptr, false).expect("ok").is_none());
    assert_eq!(
        a.ptr_work.mapped_memory_cache.get(&ptr).unwrap().is_flushed,
        FlushType::StagingBufferFlushed
    );
    assert!(a.flush_buffer_memory(ptr, true).expect("ok").is_some());
    assert_eq!(
        a.ptr_work.mapped_memory_cache.get(&ptr).unwrap().is_flushed,
        FlushType::FullyCreated
    );
}

#[test]
fn shader_storage_full_flush_binds_descriptor_once() {
    let mut a = new_allocator();
    let ptr = a
        .get_staging_buffer_for_shader_storage_mem_alloc(512)
        .expect("fits");
    assert!(a
        .ptr_work
        .mapped_memory_cache_shader_storage
        .get(&ptr)
        .unwrap()
        .descriptor_sets
        .is_none());
    a.flush_shader_storage_memory(ptr, true).expect("ok");
    let bound = a
        .ptr_work
        .mapped_memory_cache_shader_storage
        .get(&ptr)
        .unwrap()
        .descriptor_sets
        .clone()
        .expect("bound by the first full flush");
    a.flush_shader_storage_memory(ptr, true).expect("ok");
    let still = a
        .ptr_work
        .mapped_memory_cache_shader_storage
        .get(&ptr)
        .unwrap()
        .descriptor_sets
        .clone()
        .expect("still bound");
    assert_eq!(bound.pool_index, still.pool_index);
    assert_eq!(bound.set_count, still.set_count);
    assert_eq!(a.shader_storage_descr_pools.pools.len(), 1);
    assert_eq!(a.shader_storage_descr_pools.pools[0].cur_size, 1);
}

#[test]
fn flush_of_unknown_pointer_is_a_lookup_error() {
    let mut a = new_allocator();
    assert_eq!(
        a.flush_buffer_memory(0xdead_beef, false),
        Err(FlushError::LookupError)
    );
    assert_eq!(
        a.flush_img_memory(0xdead_beef, true),
        Err(FlushError::LookupError)
    );
    assert_eq!(
        a.flush_shader_storage_memory(0xdead_beef, true),
        Err(FlushError::LookupError)
    );
}

#[test]
fn image_dimensions_over_the_limit_are_rejected() {
    let mut a = new_allocator();
    let r = a.get_staging_buffer_image_for_mem_alloc(20000, 4, 1, false, TexFlags::empty());
    assert_eq!(r, Err(ImageAllocationError::ImageDimensionsTooBig));
    // the product bound also rejects shapes whose extents each pass
    let r2 = a.get_staging_buffer_image_for_mem_alloc(16384, 16384, 2, true, TexFlags::empty());
    assert_eq!(r2, Err(ImageAllocationError::ImageDimensionsTooBig));
}

#[test]
fn missing_image_heap_is_fatal_configuration_error() {
    let mut mem = Memory::new(0, true);
    let layout =
        VulkanAllocator::create_shader_storage_read_only_descriptor_set_layout(&mut mem, 1);
    let limits = Limits::new(16384, 64, 16).expect("valid");
    let mut a = VulkanAllocator::new(mem, limits, layout);
    let r = a.get_staging_buffer_image_for_mem_alloc(4, 4, 1, false, TexFlags::empty());
    assert_eq!(r, Err(ImageAllocationError::NoMemoryHeap));
}

#[test]
fn exhausted_address_space_reports_out_of_memory() {
    let mem = Memory {
        // one buffer-page worth of room left in the whole address space
        next_base: ADDR_SPACE_END - 16 * 1024 * 1024,
        next_handle: 1,
        image_memory_type_bits: 1,
        optimal_rgba_image_blitting: true,
    };
    let limits = Limits::new(16384, 64, 16).expect("valid");
    let layout = DescriptorSetLayout {
        handle: 0,
        ty: DescriptorPoolType::ShaderStorage,
        stage_flags: 1,
    };
    let mut a = VulkanAllocator::new(mem, limits, layout);
    // the first allocation takes the staging and the device page
    let first = a.get_staging_buffer_for_mem_alloc(1024);
    assert!(first.is_ok());
    // the next one finds free range space but none for new pages once the
    // windows run out
    let mut last = Ok(0);
    for _ in 0..4 {
        last = a.get_staging_buffer_for_mem_alloc(8 * 1024 * 1024);
        if last.is_err() {
            break;
        }
    }
    assert!(last.is_err());
}

#[test]
fn mip_levels_follow_flags_and_device_support() {
    let mut a = new_allocator();
    let with_mips = a
        .get_staging_buffer_image_for_mem_alloc(256, 256, 1, false, TexFlags::empty())
        .expect("fits");
    assert_eq!(a.mem_image_cache_entry(with_mips).mip_map_count, 9);
    let no_mips = a
        .get_staging_buffer_image_for_mem_alloc(
            256,
            256,
            1,
            false,
            TexFlags {
                bits: TEXFLAG_NOMIPMAPS,
            },
        )
        .expect("fits");
    assert_eq!(a.mem_image_cache_entry(no_mips).mip_map_count, 1);

    let mut mem = Memory::new(1, false);
    let layout =
        VulkanAllocator::create_shader_storage_read_only_descriptor_set_layout(&mut mem, 1);
    let limits = Limits::new(16384, 64, 16).expect("valid");
    let mut b = VulkanAllocator::new(mem, limits, layout);
    let no_blit = b
        .get_staging_buffer_image_for_mem_alloc(256, 256, 1, false, TexFlags::empty())
        .expect("fits");
    assert_eq!(b.mem_image_cache_entry(no_blit).mip_map_count, 1);
}

#[test]
fn get_and_remove_hands_the_entry_over() {
    let mut a = new_allocator();
    let ptr = a.get_staging_buffer_for_mem_alloc(2048).expect("fits");
    let entry = a.get_and_remove_mem_block(ptr).expect("registered");
    assert_eq!(entry.staging.size - entry.staging.pad, 2048);
    assert!(!a.mem_block_exists(ptr));
    assert!(a.get_and_remove_mem_block(ptr).is_err());
}

#[test]
fn purge_drops_image_caches_only() {
    let mut a = new_allocator();
    let _img = a
        .get_staging_buffer_image_for_mem_alloc(64, 64, 1, false, TexFlags::empty())
        .expect("fits");
    let _buf = a.get_staging_buffer_for_mem_alloc(64).expect("fits");
    assert_eq!(a.image_buffer_caches.len(), 1);
    a.destroy_caches();
    assert_eq!(a.image_buffer_caches.len(), 0);
    assert_eq!(a.staging_buffer_cache.pages.len(), 1);
    assert_eq!(a.vertex_buffer_cache.pages.len(), 1);
}

#[test]
fn memory_to_internal_memory_allocates_vectors_and_passes_static_through() {
    let mut a = new_allocator();
    let bytes = vec![7u8; 512];
    let out = a
        .memory_to_internal_memory(GraphicsBackendMemory {
            alloc: GraphicsBackendMemoryAllocation::Vector(bytes),
            usage: GraphicsMemoryAllocationType::VertexBuffer { required_size: 512 },
        })
        .expect("allocates");
    assert_eq!(out.size, 512);
    assert!(a.mem_block_exists(out.addr));

    let back = a
        .memory_to_internal_memory(GraphicsBackendMemory {
            alloc: GraphicsBackendMemoryAllocation::Static {
                addr: out.addr,
                size: out.size,
            },
            usage: GraphicsMemoryAllocationType::VertexBuffer { required_size: 512 },
        })
        .expect("already registered");
    assert_eq!(back.addr, out.addr);
    assert_eq!(back.size, 512);
}

#[test]
fn try_flush_mem_dispatches_by_kind() {
    let mut a = new_allocator();
    let img = a
        .get_staging_buffer_image_for_mem_alloc(16, 16, 1, false, TexFlags::empty())
        .expect("fits");
    let driver_mem = GraphicsBackendMemory {
        alloc: GraphicsBackendMemoryAllocation::Static { addr: img, size: 1024 },
        usage: GraphicsMemoryAllocationType::TextureRgbaU8 {
            width: 16,
            height: 16,
            flags: TexFlags::empty(),
        },
    };
    assert!(a.try_flush_mem(&driver_mem, false).expect("registered").is_none());
    assert!(a.try_flush_mem(&driver_mem, true).expect("registered").is_some());
    let vector_mem = GraphicsBackendMemory {
        alloc: GraphicsBackendMemoryAllocation::Vector(vec![0u8; 4]),
        usage: GraphicsMemoryAllocationType::VertexBuffer { required_size: 4 },
    };
    assert_eq!(a.try_flush_mem(&vector_mem, true), Err(FlushError::LookupError));
    let foreign = GraphicsBackendMemory {
        alloc: GraphicsBackendMemoryAllocation::Static { addr: 0x42, size: 4 },
        usage: GraphicsMemoryAllocationType::VertexBuffer { required_size: 4 },
    };
    assert_eq!(a.try_flush_mem(&foreign, true), Err(FlushError::LookupError));
}

#[test]
fn bad_limits_are_rejected() {
    // 48 does not divide the granularity
    assert!(Limits::new(16384, 48, 16).is_none());
    // the texture cap must be positive and bounded
    assert!(Limits::new(0, 64, 16).is_none());
    assert!(Limits::new(100000, 64, 16).is_none());
    assert!(Limits::new(16384, 64, 16).is_some());
}

#[test]
fn allocation_error_widening_keeps_the_variant() {
    assert_eq!(
        AllocationError::from_image_error(ImageAllocationError::ImageDimensionsTooBig),
        AllocationError::ImageDimensionsTooBig
    );
    assert_eq!(
        AllocationError::from_image_error(ImageAllocationError::NoMemoryHeap),
        AllocationError::NoMemoryHeap
    );
}

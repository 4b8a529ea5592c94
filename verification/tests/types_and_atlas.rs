use vulkan_alloc::descriptors::{DescriptorSets, SetBinding};
use vulkan_alloc::device_objects::{Buffer, Image, ImageView};
use vulkan_alloc::memory::{MemoryBlock, MemoryImageBlock};
use vulkan_alloc::texture_atlas::EditorResourceTexture2dArray;
use vulkan_alloc::vulkan_allocator::VulkanAllocator;
use vulkan_alloc::vulkan_types::{
    DescriptorPoolType, DeviceDescriptorPools, RenderPassSubType, RenderPassType, TextureData,
};

fn atlas_of_single_texel_tiles(alphas: &[u8]) -> Vec<u8> {
    // 1x1 tiles: each tile is one RGBA texel
    let mut img = Vec::new();
    for i in 0..256 {
        img.push(0);
        img.push(0);
        img.push(0);
        img.push(alphas[i]);
    }
    img
}

#[test]
fn atlas_percentages_for_single_texel_tiles() {
    let mut alphas = [0u8; 256];
    alphas[0] = 255;
    alphas[17] = 1;
    let img = atlas_of_single_texel_tiles(&alphas);
    let stats = EditorResourceTexture2dArray::new(&img, 1, 1);
    assert_eq!(stats.tile_non_fully_transparent_percentage.len(), 256);
    assert_eq!(stats.tile_non_fully_transparent_percentage[0], 100);
    assert_eq!(stats.tile_non_fully_transparent_percentage[17], 100);
    assert_eq!(stats.tile_non_fully_transparent_percentage[1], 0);
    assert_eq!(stats.tile_non_fully_transparent_percentage[255], 0);
}

#[test]
fn atlas_percentages_round_down() {
    // 2x1 tiles: tile 3 has one of its two texels visible
    let mut img = vec![0u8; 256 * 2 * 4];
    img[3 * 8 + 3] = 200;
    let stats = EditorResourceTexture2dArray::new(&img, 2, 1);
    assert_eq!(stats.tile_non_fully_transparent_percentage[3], 50);
    assert_eq!(stats.tile_non_fully_transparent_percentage[2], 0);
    // 3x1 tiles: one of three texels gives 33 percent
    let mut img3 = vec![0u8; 256 * 3 * 4];
    img3[7 * 12 + 3] = 9;
    let stats3 = EditorResourceTexture2dArray::new(&img3, 3, 1);
    assert_eq!(stats3.tile_non_fully_transparent_percentage[7], 33);
}

fn sample_block() -> MemoryBlock {
    MemoryBlock {
        page_base: 65536,
        page_size: 65536,
        offset: 65536,
        size: 4096,
        pad: 0,
        host_visible: false,
    }
}

fn sample_sets(pool_index: usize) -> DescriptorSets {
    DescriptorSets {
        pool_index,
        set_count: 1,
        binding: Some(SetBinding {
            buffer: 1,
            offset: 0,
            instance_size: 64,
        }),
    }
}

#[test]
fn texture_data_unwraps_the_descriptor_of_its_kind() {
    let img = Image {
        handle: 5,
        width: 16,
        height: 16,
        depth: 1,
        mip_map_count: 1,
    };
    let mem = MemoryImageBlock { base: sample_block() };
    let view = ImageView { handle: 9 };
    let tex2d = TextureData::Tex2D {
        img,
        _img_mem: mem,
        _img_view: view,
        vk_standard_textured_descr_set: sample_sets(3),
    };
    assert_eq!(tex2d.unwrap_2d_descr().pool_index, 3);
    let tex3d = TextureData::Tex3D {
        _img_3d: img,
        _img_3d_mem: mem,
        _img_3d_view: view,
        vk_standard_3d_textured_descr_set: sample_sets(7),
    };
    assert_eq!(tex3d.unwrap_3d_descr().pool_index, 7);
}

#[test]
fn descriptor_pools_grow_by_the_ceiling_of_the_request() {
    let mut pools = DeviceDescriptorPools::new(128, DescriptorPoolType::ShaderStorage);
    let layout = make_layout();
    let groups = VulkanAllocator::get_descriptor_pool_for_alloc(&mut pools, 300, &layout);
    let total: usize = groups.iter().map(|g| g.set_count).sum();
    assert_eq!(total, 300);
    // ceil(300 / 128) pools are created from empty
    assert_eq!(pools.pools.len(), 3);
    for p in pools.pools.iter() {
        assert!(p.cur_size <= p.size);
        assert_eq!(p.size, 128);
    }
}

#[test]
fn descriptor_groups_split_greedily_across_pools() {
    let mut pools = DeviceDescriptorPools::new(4, DescriptorPoolType::Uniform);
    let layout = make_layout();
    let groups = VulkanAllocator::get_descriptor_pool_for_alloc(&mut pools, 10, &layout);
    let counts: Vec<usize> = groups.iter().map(|g| g.set_count).collect();
    assert_eq!(counts, vec![4, 4, 2]);
    assert_eq!(pools.pools.len(), 3);
}

#[test]
fn bound_sets_cover_consecutive_buffer_regions() {
    let mut pools = DeviceDescriptorPools::new(4, DescriptorPoolType::ShaderStorage);
    let layout = make_layout();
    let buffer = Buffer { handle: 77 };
    let groups = VulkanAllocator::create_shader_storage_descriptor_sets(
        &mut pools, &layout, 10, &buffer, 256, 1024,
    );
    let mut expected_offset = 1024u64;
    let mut total = 0usize;
    for g in groups.iter() {
        let binding = g.binding.expect("bound");
        assert_eq!(binding.buffer, 77);
        assert_eq!(binding.instance_size, 256);
        assert_eq!(binding.offset, expected_offset);
        expected_offset += 256 * g.set_count as u64;
        total += g.set_count;
    }
    assert_eq!(total, 10);
}

#[test]
fn default_render_pass_is_the_single_normal_pass() {
    assert_eq!(
        RenderPassType::default(),
        RenderPassType::Normal(RenderPassSubType::Single)
    );
}

fn make_layout() -> vulkan_alloc::descriptors::DescriptorSetLayout {
    vulkan_alloc::descriptors::DescriptorSetLayout {
        handle: 1,
        ty: DescriptorPoolType::ShaderStorage,
        stage_flags: 1,
    }
}

//! The graphics backend's shared object types: textures, buffer objects,
//! shader storages, swap-chain images, pipeline selectors, and the per-kind
//! descriptor-pool groups.

use vstd::prelude::*;
use crate::descriptors::{DescriptorPool, DescriptorSet, DescriptorSets, MAX_POOL_CAPACITY};
use crate::device_objects::{Buffer, Image, ImageView};
use crate::memory::{MemoryBlock, MemoryImageBlock};

verus! {

/// What a block of device memory backs.
#[derive(Debug, Clone, Copy, PartialEq, Eq, Structural)]
pub enum MemoryBlockType {
    /// Image memory.
    Texture,
    /// Vertex/index or storage buffer memory.
    Buffer,
    /// Streamed per-frame data.
    Stream,
    /// Host-visible staging memory.
    Staging,
}

/// Which resource kind a descriptor pool serves.
#[derive(Debug, Clone, Copy, PartialEq, Eq, Structural)]
pub enum DescriptorPoolType {
    /// Combined image and sampler descriptors.
    CombineImgageAndSampler,
    /// Sampled-image descriptors.
    Image,
    /// Sampler descriptors.
    Sampler,
    /// Uniform-buffer descriptors.
    Uniform,
    /// Shader-storage-buffer descriptors.
    ShaderStorage,
}

/// The growable group of descriptor pools of one kind.
#[derive(Debug, Clone)]
pub struct DeviceDescriptorPools {
    /// The pools, in creation order; never removed.
    pub pools: Vec<DescriptorPool>,
    /// Capacity given to each pool appended when all existing ones are full.
    pub default_alloc_size: u64,
    /// The resource kind all pools of this group serve.
    pub pool_ty: DescriptorPoolType,
}

impl DeviceDescriptorPools {
    /// Every pool respects its capacity and the default size is usable.
    pub open spec fn wf(self) -> bool {
        &&& 1 <= self.default_alloc_size <= MAX_POOL_CAPACITY
        &&& forall|i: int| 0 <= i < self.pools@.len() ==> (#[trigger] self.pools@[i]).wf()
    }

    /// Every pool of the group is at capacity (vacuously true of an empty
    /// group): the next allocation can reuse nothing.
    pub open spec fn all_full(self) -> bool {
        forall|i: int|
            0 <= i < self.pools@.len() ==> (#[trigger] self.pools@[i]).cur_size
                == self.pools@[i].size
    }

    /// A pool group that will append pools of `default_alloc_size` sets.
    /// Pools grow on demand; none exists up front.
    pub fn new(default_alloc_size: u64, pool_ty: DescriptorPoolType) -> (r: DeviceDescriptorPools)
        requires
            1 <= default_alloc_size <= MAX_POOL_CAPACITY,
        ensures
            r.wf(),
            r.pools@.len() == 0,
            r.default_alloc_size == default_alloc_size,
            r.pool_ty == pool_ty,
    {
        DeviceDescriptorPools { pools: Vec::new(), default_alloc_size, pool_ty }
    }
}

/// A texture's device-side objects, by shape.
#[derive(Debug, Clone)]
pub enum TextureData {
    /// A plain 2d texture.
    Tex2D {
        /// The image object.
        img: Image,
        /// Its bound device memory.
        _img_mem: MemoryImageBlock,
        /// The sampled view.
        _img_view: ImageView,
        /// The descriptor set shaders sample it through.
        vk_standard_textured_descr_set: DescriptorSets,
    },
    /// A 2d-array ("3d") texture.
    Tex3D {
        /// The image object.
        _img_3d: Image,
        /// Its bound device memory.
        _img_3d_mem: MemoryImageBlock,
        /// The sampled view.
        _img_3d_view: ImageView,
        /// The descriptor set shaders sample it through.
        vk_standard_3d_textured_descr_set: DescriptorSets,
    },
}

impl TextureData {
    /// The descriptor set of a 2d-array texture.
    pub fn unwrap_3d_descr(&self) -> (r: &DescriptorSets)
        requires
            self is Tex3D,
        ensures
            *r == self->Tex3D_vk_standard_3d_textured_descr_set,
    {
        match self {
            TextureData::Tex2D { .. } => unreached(),
            TextureData::Tex3D { vk_standard_3d_textured_descr_set, .. } => {
                vk_standard_3d_textured_descr_set
            },
        }
    }

    /// The descriptor set of a plain 2d texture.
    pub fn unwrap_2d_descr(&self) -> (r: &DescriptorSets)
        requires
            self is Tex2D,
        ensures
            *r == self->Tex2D_vk_standard_textured_descr_set,
    {
        match self {
            TextureData::Tex2D { vk_standard_textured_descr_set, .. } => {
                vk_standard_textured_descr_set
            },
            TextureData::Tex3D { .. } => unreached(),
        }
    }
}

/// A texture with its mip count.
#[derive(Debug, Clone)]
pub struct TextureObject {
    /// The device-side objects.
    pub data: TextureData,
    /// Mip levels the texture carries.
    pub mip_map_count: u32,
}

/// The memory behind a buffer object.
#[derive(Debug, Clone, Copy)]
pub struct BufferObjectMem {
    /// The owned block of device memory.
    pub mem: MemoryBlock,
}

/// A finished device-side buffer object.
#[derive(Debug, Clone, Copy)]
pub struct BufferObject {
    /// The memory the buffer lives in.
    pub buffer_object: BufferObjectMem,
    /// The driver buffer the memory is bound to.
    pub cur_buffer: Buffer,
    /// Offset of this object inside that buffer.
    pub cur_buffer_offset: usize,
}

/// A shader-storage buffer with the descriptor set that exposes it.
#[derive(Debug, Clone)]
pub struct ShaderStorage {
    /// The underlying buffer object.
    pub buffer: BufferObject,
    /// The descriptor set bound to it.
    pub descriptor: DescriptorSets,
}

/// The pair of uniform descriptor sets of one streamed uniform buffer.
#[derive(Debug, Clone, Copy)]
pub struct StreamedUniformBuffer {
    /// One set per supported uniform layout.
    pub uniform_sets: [DescriptorSet; 2],
}

/// Sampler address modes the backend supports.
#[derive(Debug, Clone, Copy, PartialEq, Eq, Structural)]
pub enum SupportedAddressModes {
    /// Repeat the texture.
    Repeat,
    /// Clamp to the edge texel.
    ClampEdges,
}

/// Blend modes the backend supports.
#[derive(Debug, Clone, Copy, PartialEq, Eq, Structural)]
pub enum SupportedBlendModes {
    /// Standard alpha blending.
    Alpha,
    /// No blending.
    NoBlending,
    /// Additive blending.
    Additive,
}

/// How a draw clips to the canvas.
#[derive(Debug, Clone, Copy, PartialEq, Eq, Structural)]
pub enum CanvasClipModes {
    /// No clipping.
    NoClip,
    /// Scissor and viewport set dynamically per draw.
    DynamicScissorAndViewport,
}

/// Which flavor of a normal render pass is used.
#[derive(Debug, Clone, Copy, PartialEq, Eq, Structural, Default)]
pub enum RenderPassSubType {
    /// One framebuffer.
    #[default]
    Single,
    /// First of two framebuffers used as each other's input attachments.
    Switching1,
    /// Second of the switching pair.
    Switching2,
}

/// The render pass a command group runs in.
#[derive(Debug, Clone, Copy, PartialEq, Eq, Structural)]
pub enum RenderPassType {
    /// A normal pass of the given flavor.
    Normal(RenderPassSubType),
    /// A multi-sampled pass.
    MultiSampling,
}

impl Default for RenderPassType {
    /// A single-framebuffer normal pass.
    fn default() -> (r: Self)
        ensures
            r == RenderPassType::Normal(RenderPassSubType::Single),
    {
        RenderPassType::Normal(RenderPassSubType::Single)
    }
}

/// Pipeline attributes that select among precompiled variants.
#[derive(Debug, Clone, Copy, PartialEq, Eq, Structural)]
pub struct PipelineCreationAttributes {
    /// Blend mode the pipeline is built for.
    pub blend_mode: SupportedBlendModes,
    /// Clip mode the pipeline is built for.
    pub clip_mode: CanvasClipModes,
    /// Whether the pipeline samples a texture.
    pub is_textured: bool,
}

/// Derived pipeline attributes kept beside [`PipelineCreationAttributes`].
#[derive(Debug, Clone, Copy, PartialEq, Eq, Structural)]
pub struct PipelineCreationAttributesEx {
    /// Index of the sampler address mode.
    pub address_mode_index: usize,
    /// Whether the pipeline samples a texture.
    pub is_textured: bool,
}

/// Everything needed to create one pipeline variant.
#[derive(Debug, Clone, Copy, PartialEq, Eq, Structural)]
pub struct PipelineCreationProps {
    /// The selecting attributes.
    pub attr: PipelineCreationAttributes,
    /// The derived attributes.
    pub attr_ex: PipelineCreationAttributesEx,
}

/// Sampler kinds the backend creates pipelines for.
#[derive(Debug, Clone, Copy, PartialEq, Eq, Structural)]
pub enum SupportedSamplerTypes {
    /// Repeating sampler.
    Repeat,
    /// Clamp-to-edge sampler.
    ClampToEdge,
    /// Sampler for 2d-array textures.
    Texture2dArray,
}

/// One swap-chain image with its memory and view.
#[derive(Debug, Clone, Copy)]
pub struct SwapChainImageBase {
    /// The image presented from.
    pub image: Image,
    /// Its bound device memory.
    pub img_mem: MemoryImageBlock,
    /// The attachment view.
    pub img_view: ImageView,
}

/// A swap-chain image that can also be sampled as a texture.
#[derive(Debug, Clone)]
pub struct SwapChainImageFull {
    /// The image, memory and view.
    pub base: SwapChainImageBase,
    /// The descriptor set for sampling it.
    pub texture_descr_sets: DescriptorSets,
}

/// A batch of render commands one thread prepares for a pass.
#[derive(Debug, Clone, Default)]
pub struct ThreadCommandGroup {
    /// The pass the commands run in.
    pub render_pass: RenderPassType,
    /// Index of that pass within the frame.
    pub render_pass_index: usize,
    /// Which canvas the pass renders to.
    pub canvas_index: usize,
    /// The frame the group belongs to.
    pub cur_frame_index: u32,
    /// Position of this group among the frame's groups.
    pub in_order_id: usize,
    /// Ids of the recorded render commands, in submission order.
    pub cmds: Vec<u64>,
}

} // verus!

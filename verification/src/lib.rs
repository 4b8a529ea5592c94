//! A model of the GPU-memory allocation subsystem of a Vulkan graphics
//! backend: a page cache that carves coarse driver allocations into blocks,
//! a pointer registry that maps each handed-out host-writable address to its
//! owning cache entry, a monotonic flush/upload state machine, and a growable
//! descriptor-pool allocator.
//!
//! Driver objects (memory pages, buffers, images, fences, command buffers,
//! descriptor sets) are represented by plain integer handles and address
//! windows; the driver itself is an external collaborator that executes the
//! submissions this library records.

pub mod commands;
pub mod descriptors;
pub mod device_objects;
pub mod limits;
pub mod memory;
pub mod texture_atlas;
pub mod vulkan_allocator;
pub mod vulkan_mem;
pub mod vulkan_types;

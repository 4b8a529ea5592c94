//! Descriptor pools and the set groups drawn from them. A pool has a fixed
//! capacity; allocating sets only ever bumps its count, and the count never
//! exceeds the capacity.

use vstd::prelude::*;
use crate::vulkan_types::DescriptorPoolType;

verus! {

/// The largest capacity a descriptor pool of this model may have; keeps the
/// bump counters far from overflow.
pub const MAX_POOL_CAPACITY: u64 = 0x1000_0000;

/// One fixed-capacity descriptor pool.
#[derive(Debug, Clone, Copy)]
pub struct DescriptorPool {
    /// Capacity: how many sets this pool can ever hold at once.
    pub size: u64,
    /// How many sets are currently allocated from it.
    pub cur_size: u64,
}

impl DescriptorPool {
    /// The count never exceeds the capacity, and the capacity is bounded.
    pub open spec fn wf(self) -> bool {
        &&& 1 <= self.size <= MAX_POOL_CAPACITY
        &&& self.cur_size <= self.size
    }
}

/// A single descriptor set.
#[derive(Debug, Clone, Copy, PartialEq, Eq, Structural)]
pub struct DescriptorSet {
    /// Driver handle.
    pub handle: u64,
}

/// The buffer region a group of sets is bound to.
#[derive(Debug, Clone, Copy, PartialEq, Eq, Structural)]
pub struct SetBinding {
    /// Handle of the bound buffer.
    pub buffer: u64,
    /// Byte offset of the first set's region inside that buffer.
    pub offset: u64,
    /// Bytes each set's region spans.
    pub instance_size: u64,
}

/// A group of descriptor sets allocated together from one pool.
#[derive(Debug, Clone)]
pub struct DescriptorSets {
    /// Index of the owning pool in its [`DeviceDescriptorPools`]; the group
    /// keeps the pool alive, pools are never removed.
    ///
    /// [`DeviceDescriptorPools`]: crate::vulkan_types::DeviceDescriptorPools
    pub pool_index: usize,
    /// How many sets the group holds; counted in the pool's `cur_size`.
    pub set_count: usize,
    /// The buffer region the sets are bound to, once assigned.
    pub binding: Option<SetBinding>,
}

impl DescriptorSets {
    /// Binds every set of this group to consecutive regions of `buffer`,
    /// starting at `offset`, each `instance_size` bytes; returns how many
    /// sets were bound.
    pub fn assign_buffer_to_sets(
        &mut self,
        buffer: u64,
        offset: u64,
        instance_size: u64,
    ) -> (r: usize)
        ensures
            r == old(self).set_count,
            final(self).set_count == old(self).set_count,
            final(self).pool_index == old(self).pool_index,
            final(self).binding == Some(SetBinding { buffer, offset, instance_size }),
    {
        self.binding = Some(SetBinding { buffer, offset, instance_size });
        self.set_count
    }
}

/// A descriptor-set layout: which kind of resource the sets bind, and for
/// which shader stages.
#[derive(Debug, Clone, Copy)]
pub struct DescriptorSetLayout {
    /// Driver handle.
    pub handle: u64,
    /// The resource kind the layout describes.
    pub ty: DescriptorPoolType,
    /// Shader-stage bits the binding is visible to.
    pub stage_flags: u32,
}

/// The sets of `s`, summed over the groups.
pub open spec fn sum_set_counts(s: Seq<DescriptorSets>) -> int
    decreases s.len(),
{
    if s.len() == 0 {
        0
    } else {
        sum_set_counts(s.drop_last()) + s.last().set_count
    }
}

/// Appending a group adds its count to the sum.
pub proof fn lemma_sum_set_counts_push(s: Seq<DescriptorSets>, x: DescriptorSets)
    ensures
        sum_set_counts(s.push(x)) == sum_set_counts(s) + x.set_count,
{
    assert(s.push(x).drop_last() =~= s);
}

/// Taking one more group adds its count to the prefix sum.
pub proof fn lemma_sum_take_succ(s: Seq<DescriptorSets>, i: int)
    requires
        0 <= i < s.len(),
    ensures
        sum_set_counts(s.take(i + 1)) == sum_set_counts(s.take(i)) + s[i].set_count,
{
    assert(s.take(i + 1).drop_last() =~= s.take(i));
    assert(s.take(i + 1).last() == s[i]);
}

/// A prefix sum never exceeds the whole sum.
pub proof fn lemma_sum_take_le(s: Seq<DescriptorSets>, i: int)
    requires
        0 <= i <= s.len(),
    ensures
        0 <= sum_set_counts(s.take(i)) <= sum_set_counts(s),
    decreases s.len() - i,
{
    if i == s.len() {
        assert(s.take(i) =~= s);
        lemma_sum_nonneg(s, i);
    } else {
        lemma_sum_take_succ(s, i);
        lemma_sum_take_le(s, i + 1);
        lemma_sum_nonneg(s, i);
    }
}

/// Prefix sums are never negative.
pub proof fn lemma_sum_nonneg(s: Seq<DescriptorSets>, i: int)
    requires
        0 <= i <= s.len(),
    ensures
        sum_set_counts(s.take(i)) >= 0,
    decreases i,
{
    if i > 0 {
        lemma_sum_take_succ(s, i - 1);
        lemma_sum_nonneg(s, i - 1);
    } else {
        assert(s.take(0).len() == 0);
    }
}

} // verus!

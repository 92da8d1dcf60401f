//! Batching of uniform data into fixed-capacity chunks addressed by
//! dynamic offsets, for platforms without storage buffers.
//!
//! Elements accumulate in a staging batch; once it reaches the batch
//! capacity it is flushed as one chunk, and the running dynamic offset
//! advances by the chunk's aligned size.

use vstd::prelude::*;
use crate::round_up;

verus! {

/// The greatest binding size worth using for one chunk, even where the
/// device reports more.
pub const MAX_REASONABLE_UNIFORM_BUFFER_BINDING_SIZE: u32 = 0x100000;

/// Where one pushed element landed: its index within its chunk and the
/// dynamic offset of that chunk.
#[derive(Clone, Copy, PartialEq, Eq, Structural, Debug)]
pub struct GpuBufferIndex {
    pub instance_index: u32,
    pub dynamic_offset: Option<u32>,
}

/// How many elements of the given aligned stride fit one chunk, given the
/// device's uniform-buffer binding size limit.
pub fn batch_size(max_uniform_buffer_binding_size: u32, element_stride: u64) -> (n: u64)
    requires
        element_stride >= 1,
    ensures
        n == (if max_uniform_buffer_binding_size
            < MAX_REASONABLE_UNIFORM_BUFFER_BINDING_SIZE {
            max_uniform_buffer_binding_size
        } else {
            MAX_REASONABLE_UNIFORM_BUFFER_BINDING_SIZE
        }) as u64 / element_stride,
{
    let capped = if max_uniform_buffer_binding_size
        < MAX_REASONABLE_UNIFORM_BUFFER_BINDING_SIZE {
        max_uniform_buffer_binding_size
    } else {
        MAX_REASONABLE_UNIFORM_BUFFER_BINDING_SIZE
    };
    (capped as u64) / element_stride
}

/// Uniform data batched into chunks of at most `capacity` elements, each
/// chunk bound at a dynamic offset aligned to the device's requirement.
pub struct BatchedUniformBuffer<T> {
    uniforms: Vec<Vec<T>>,
    temp: Vec<T>,
    capacity: usize,
    element_stride: u64,
    current_offset: u32,
    dynamic_offset_alignment: u32,
}

impl<T> BatchedUniformBuffer<T> {
    /// The flushed chunks, oldest first.
    pub closed spec fn spec_uniforms(self) -> Seq<Vec<T>> {
        self.uniforms@
    }

    /// The staging batch.
    pub closed spec fn spec_temp(self) -> Seq<T> {
        self.temp@
    }

    /// Elements per chunk.
    pub closed spec fn spec_capacity(self) -> usize {
        self.capacity
    }

    /// The aligned byte size of one element.
    pub closed spec fn spec_element_stride(self) -> u64 {
        self.element_stride
    }

    /// The dynamic offset the next flushed chunk will be bound at.
    pub closed spec fn spec_current_offset(self) -> u32 {
        self.current_offset
    }

    /// The device's dynamic offset alignment.
    pub closed spec fn spec_alignment(self) -> u32 {
        self.dynamic_offset_alignment
    }

    /// The fixed configuration is sound: positive stride and alignment,
    /// and one chunk's byte size is representable.
    pub closed spec fn config_ok(self) -> bool {
        &&& self.element_stride >= 1
        &&& self.dynamic_offset_alignment >= 1
        &&& self.element_stride * self.capacity as int <= u64::MAX
        &&& self.capacity <= u32::MAX
    }

    /// The staging batch stays strictly below the chunk capacity — a full
    /// batch is flushed at once — except for a degenerate zero-capacity
    /// buffer (an element larger than the binding limit), which only ever
    /// accumulates.
    pub closed spec fn inv(self) -> bool {
        &&& self.config_ok()
        &&& self.capacity == 0 || self.temp@.len() < self.capacity
    }

    /// The byte size of one full chunk: the element stride times the
    /// capacity, never less than one element.
    pub open spec fn spec_size(self) -> int {
        self.spec_element_stride() * (if self.spec_capacity() == 0 {
            1int
        } else {
            self.spec_capacity() as int
        })
    }

    /// A well-formed buffer always has a sound configuration, so a caller
    /// holding the invariant may flush at any time.
    pub proof fn lemma_inv_implies_config(self)
        requires
            self.inv(),
        ensures
            self.config_ok(),
    {
    }

    /// An empty buffer for elements of the given aligned stride, sized to
    /// the device's binding limit and offset alignment.
    pub fn new(
        max_uniform_buffer_binding_size: u32,
        min_uniform_buffer_offset_alignment: u32,
        element_stride: u64,
    ) -> (b: BatchedUniformBuffer<T>)
        requires
            element_stride >= 1,
            min_uniform_buffer_offset_alignment >= 1,
        ensures
            b.inv(),
            b.spec_uniforms() == Seq::<Vec<T>>::empty(),
            b.spec_temp() == Seq::<T>::empty(),
            b.spec_capacity() == (if max_uniform_buffer_binding_size
                < MAX_REASONABLE_UNIFORM_BUFFER_BINDING_SIZE {
                max_uniform_buffer_binding_size
            } else {
                MAX_REASONABLE_UNIFORM_BUFFER_BINDING_SIZE
            }) as u64 / element_stride,
            b.spec_element_stride() == element_stride,
            b.spec_current_offset() == 0,
            b.spec_alignment() == min_uniform_buffer_offset_alignment,
    {
        let capacity = batch_size(max_uniform_buffer_binding_size, element_stride);
        proof {
            let capped = (if max_uniform_buffer_binding_size
                < MAX_REASONABLE_UNIFORM_BUFFER_BINDING_SIZE {
                max_uniform_buffer_binding_size
            } else {
                MAX_REASONABLE_UNIFORM_BUFFER_BINDING_SIZE
            }) as int;
            vstd::arithmetic::div_mod::lemma_fundamental_div_mod(capped, element_stride as int);
            vstd::arithmetic::div_mod::lemma_mod_bound(capped, element_stride as int);
            vstd::arithmetic::div_mod::lemma_div_nonincreasing(capped, element_stride as int);
        }
        BatchedUniformBuffer {
            uniforms: Vec::new(),
            temp: Vec::new(),
            capacity: capacity as usize,
            element_stride,
            current_offset: 0,
            dynamic_offset_alignment: min_uniform_buffer_offset_alignment,
        }
    }

    /// The byte size of one full chunk; never zero.
    pub fn size(&self) -> (n: u64)
        requires
            self.config_ok(),
        ensures
            n == self.spec_size(),
            n >= 1,
    {
        if self.capacity == 0 {
            self.element_stride
        } else {
            proof {
                assert(self.element_stride * (self.capacity as int) >= 1) by (nonlinear_arith)
                    requires
                        self.element_stride >= 1,
                        self.capacity >= 1,
                ;
            }
            proof {
                vstd::arithmetic::mul::lemma_mul_is_commutative(
                    self.element_stride as int,
                    self.capacity as int,
                );
            }
            self.element_stride * (self.capacity as u64)
        }
    }

    /// Drops all batched data and rewinds the dynamic offset.
    pub fn clear(&mut self)
        requires
            old(self).inv(),
        ensures
            final(self).inv(),
            final(self).spec_uniforms() == Seq::<Vec<T>>::empty(),
            final(self).spec_temp() == Seq::<T>::empty(),
            final(self).spec_current_offset() == 0,
            final(self).spec_capacity() == old(self).spec_capacity(),
            final(self).spec_element_stride() == old(self).spec_element_stride(),
            final(self).spec_alignment() == old(self).spec_alignment(),
    {
        self.uniforms = Vec::new();
        self.current_offset = 0;
        self.temp = Vec::new();
    }

    /// Appends one element to the staging batch, returning where it will
    /// land; a batch that reaches the chunk capacity is flushed at once.
    pub fn push(&mut self, component: T) -> (index: GpuBufferIndex)
        requires
            old(self).inv(),
            old(self).spec_temp().len() < u32::MAX,
            old(self).spec_current_offset() + (old(self).spec_size() + old(
                self,
            ).spec_alignment() - 1) <= u32::MAX,
        ensures
            final(self).inv(),
            index.instance_index == old(self).spec_temp().len(),
            index.dynamic_offset == Some(old(self).spec_current_offset()),
            final(self).spec_capacity() == old(self).spec_capacity(),
            final(self).spec_element_stride() == old(self).spec_element_stride(),
            final(self).spec_alignment() == old(self).spec_alignment(),
            // Reaching the capacity flushes the batch as one chunk.
            if old(self).spec_temp().len() + 1 == old(self).spec_capacity() {
                &&& final(self).spec_uniforms().len() == old(self).spec_uniforms().len() + 1
                &&& final(self).spec_uniforms().last()@ == old(self).spec_temp().push(
                    component,
                )
                &&& forall|i: int|
                    0 <= i < old(self).spec_uniforms().len()
                        ==> #[trigger] final(self).spec_uniforms()[i] == old(
                        self,
                    ).spec_uniforms()[i]
                &&& final(self).spec_temp() == Seq::<T>::empty()
                &&& final(self).spec_current_offset() == old(self).spec_current_offset()
                    + spec_aligned_size(old(self).spec_size(), old(self).spec_alignment() as int)
            } else {
                &&& final(self).spec_uniforms() == old(self).spec_uniforms()
                &&& final(self).spec_temp() == old(self).spec_temp().push(component)
                &&& final(self).spec_current_offset() == old(self).spec_current_offset()
            },
    {
        let index = GpuBufferIndex {
            instance_index: self.temp.len() as u32,
            dynamic_offset: Some(self.current_offset),
        };
        self.temp.push(component);
        if self.temp.len() == self.capacity {
            self.flush();
        }
        index
    }

    /// Seals the staging batch as one chunk and advances the dynamic
    /// offset by the chunk's aligned byte size.
    pub fn flush(&mut self)
        requires
            old(self).config_ok(),
            old(self).spec_current_offset() + (old(self).spec_size() + old(
                self,
            ).spec_alignment() - 1) <= u32::MAX,
        ensures
            final(self).inv(),
            final(self).spec_uniforms().len() == old(self).spec_uniforms().len() + 1,
            final(self).spec_uniforms().last()@ == old(self).spec_temp(),
            forall|i: int|
                0 <= i < old(self).spec_uniforms().len()
                    ==> #[trigger] final(self).spec_uniforms()[i] == old(
                    self,
                ).spec_uniforms()[i],
            final(self).spec_temp() == Seq::<T>::empty(),
            final(self).spec_current_offset() == old(self).spec_current_offset()
                + spec_aligned_size(old(self).spec_size(), old(self).spec_alignment() as int),
            final(self).spec_capacity() == old(self).spec_capacity(),
            final(self).spec_element_stride() == old(self).spec_element_stride(),
            final(self).spec_alignment() == old(self).spec_alignment(),
    {
        let size = self.size();
        let mut sealed: Vec<T> = Vec::new();
        core::mem::swap(&mut sealed, &mut self.temp);
        self.uniforms.push(sealed);
        let step = round_up(size, self.dynamic_offset_alignment as u64);
        self.current_offset = self.current_offset + (step as u32);
    }

}

/// A byte size rounded up to the alignment.
pub open spec fn spec_aligned_size(size: int, alignment: int) -> int {
    ((size + alignment - 1) / alignment) * alignment
}

} // verus!

//! Bottom-level acceleration structure bookkeeping for ray tracing.
//!
//! Each triangle-list mesh gets one acceleration structure, built once
//! and looked up by mesh asset identity afterwards.

use vstd::prelude::*;
use crate::from_mesh::PrimitiveTopology;

verus! {

/// A mesh's index buffer on the device, by identity and shape.
pub enum GpuBufferInfo {
    Indexed { buffer: u64, count: u32, index_format: IndexFormat },
    NonIndexed,
}

/// The width of one index.
#[derive(Clone, Copy, PartialEq, Eq, Structural, Debug)]
pub enum IndexFormat {
    Uint16,
    Uint32,
}

/// Splits a mesh's index buffer information into the pieces an
/// acceleration-structure build consumes: all present for an indexed
/// mesh, with the build reading from offset zero; all absent otherwise.
pub fn map_buffer_info(buffer_info: &GpuBufferInfo) -> (r: (
    Option<u64>,
    Option<u32>,
    Option<IndexFormat>,
    Option<u64>,
))
    ensures
        r == match *buffer_info {
            GpuBufferInfo::Indexed { buffer, count, index_format } => (
                Some(buffer),
                Some(count),
                Some(index_format),
                Some(0u64),
            ),
            GpuBufferInfo::NonIndexed => (
                None::<u64>,
                None::<u32>,
                None::<IndexFormat>,
                None::<u64>,
            ),
        },
{
    match buffer_info {
        GpuBufferInfo::Indexed { buffer, count, index_format } => (
            Some(*buffer),
            Some(*count),
            Some(*index_format),
            Some(0),
        ),
        GpuBufferInfo::NonIndexed => (None, None, None, None),
    }
}

/// The acceleration structures built so far, keyed by mesh asset
/// identity.
pub struct BlasStorage {
    storage: Vec<(u64, u64)>,
}

/// First-match lookup in the storage's association list.
pub open spec fn find_blas_spec(s: Seq<(u64, u64)>, mesh: u64) -> Option<u64>
    decreases s.len(),
{
    if s.len() == 0 {
        None
    } else if s.first().0 == mesh {
        Some(s.first().1)
    } else {
        find_blas_spec(s.drop_first(), mesh)
    }
}

impl BlasStorage {
    /// The stored association list.
    pub closed spec fn spec_storage(self) -> Seq<(u64, u64)> {
        self.storage@
    }

    /// An empty storage.
    pub fn new() -> (s: BlasStorage)
        ensures
            s.spec_storage() == Seq::<(u64, u64)>::empty(),
    {
        BlasStorage { storage: Vec::new() }
    }

    /// The acceleration structure built for a mesh, if any.
    pub fn get(&self, mesh: u64) -> (r: Option<u64>)
        ensures
            r == find_blas_spec(self.spec_storage(), mesh),
    {
        let ghost full = self.storage@;
        proof {
            assert(full.skip(0) =~= full);
        }
        let mut i: usize = 0;
        while i < self.storage.len()
            invariant
                0 <= i <= full.len(),
                full == self.storage@,
                find_blas_spec(full, mesh) == find_blas_spec(full.skip(i as int), mesh),
            decreases full.len() - i,
        {
            let entry = self.storage[i];
            proof {
                assert(full.skip(i as int).first() == full[i as int]);
                assert(full.skip(i as int).drop_first() =~= full.skip(i as int + 1));
            }
            if entry.0 == mesh {
                return Some(entry.1);
            }
            i = i + 1;
        }
        proof {
            assert(full.skip(full.len() as int) =~= Seq::<(u64, u64)>::empty());
        }
        None
    }

    /// Whether a mesh still needs an acceleration structure: it is a
    /// triangle list and none was built for it yet.
    pub fn needs_build(&self, mesh: u64, topology: PrimitiveTopology) -> (r: bool)
        ensures
            r == (find_blas_spec(self.spec_storage(), mesh) is None && topology
                == PrimitiveTopology::TriangleList),
    {
        let existing = self.get(mesh);
        existing.is_none() && matches!(topology, PrimitiveTopology::TriangleList)
    }

    /// Records a mesh's freshly built acceleration structure.
    pub fn insert(&mut self, mesh: u64, blas: u64)
        ensures
            final(self).spec_storage() == old(self).spec_storage().push((mesh, blas)),
    {
        self.storage.push((mesh, blas));
    }
}

} // verus!

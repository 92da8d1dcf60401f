//! Append-only, growable persistent buffer with deferred writes.
//!
//! `queue_write_bytes` reserves a byte range in a monotonically growing
//! virtual buffer and returns it immediately, so dependent structures can
//! embed offsets before the backing storage exists. `perform_writes` is
//! called once per frame: it grows the backing arena if the virtual size
//! now exceeds its capacity — preserving every byte written earlier — and
//! then lands each queued item's bytes at its reserved offset.
//!
//! The arena is an in-memory model of the device-resident buffer: the byte
//! contents and offsets it ends up with are exactly those a device upload
//! performs, so a caller can mirror the performed writes to a real device
//! verbatim.

use vstd::prelude::*;

verus! {

/// A reserved byte range in the virtual buffer.
#[derive(Clone, Copy, PartialEq, Eq, Structural, Debug)]
pub struct BufferSlice {
    pub start: u64,
    pub end: u64,
}

/// Concatenation of the queued chunks' bytes, oldest first.
pub open spec fn chunks_concat(cs: Seq<Vec<u8>>) -> Seq<u8>
    decreases cs.len(),
{
    if cs.len() == 0 {
        Seq::empty()
    } else {
        cs.first()@ + chunks_concat(cs.drop_first())
    }
}

proof fn lemma_chunks_concat_push(cs: Seq<Vec<u8>>, v: Vec<u8>)
    ensures
        chunks_concat(cs.push(v)) == chunks_concat(cs) + v@,
    decreases cs.len(),
{
    if cs.len() == 0 {
        assert(cs.push(v).first() == v);
        assert(cs.push(v).drop_first() =~= Seq::<Vec<u8>>::empty());
        assert(chunks_concat(cs.push(v).drop_first()) =~= Seq::<u8>::empty());
        assert(chunks_concat(cs.push(v)) =~= chunks_concat(cs) + v@);
    } else {
        assert(cs.push(v).drop_first() =~= cs.drop_first().push(v));
        lemma_chunks_concat_push(cs.drop_first(), v);
        assert(chunks_concat(cs.push(v)) =~= chunks_concat(cs) + v@);
    }
}

proof fn lemma_chunks_concat_skip(cs: Seq<Vec<u8>>, w: int)
    requires
        0 <= w < cs.len(),
    ensures
        chunks_concat(cs.skip(w)) == cs[w]@ + chunks_concat(cs.skip(w + 1)),
{
    assert(cs.skip(w).first() == cs[w]);
    assert(cs.skip(w).drop_first() =~= cs.skip(w + 1));
}

/// An append-only virtual buffer whose committed prefix lives in a growable
/// byte arena.
pub struct PersistentGpuBuffer {
    arena: Vec<u8>,
    committed_size: u64,
    virtual_size: u64,
    pending: Vec<Vec<u8>>,
}

impl PersistentGpuBuffer {
    /// Structural well-formedness: the committed prefix fits in the arena
    /// and the queued chunks account for the uncommitted tail of the
    /// virtual buffer.
    pub closed spec fn wf(self) -> bool {
        &&& self.committed_size <= self.virtual_size
        &&& self.arena@.len() >= self.committed_size
        &&& self.virtual_size == self.committed_size + chunks_concat(self.pending@).len()
    }

    /// The logical contents of the virtual buffer: the committed prefix of
    /// the arena followed by the queued bytes.
    pub closed spec fn logical(self) -> Seq<u8> {
        self.arena@.subrange(0, self.committed_size as int) + chunks_concat(self.pending@)
    }

    /// Current size of the virtual buffer in bytes.
    pub closed spec fn spec_virtual_size(self) -> u64 {
        self.virtual_size
    }

    /// Size of the committed (already performed) prefix in bytes.
    pub closed spec fn spec_committed_size(self) -> u64 {
        self.committed_size
    }

    /// The backing arena's contents.
    pub closed spec fn spec_arena(self) -> Seq<u8> {
        self.arena@
    }

    /// The logical length equals the virtual size.
    pub proof fn lemma_logical_len(self)
        requires
            self.wf(),
        ensures
            self.logical().len() == self.spec_virtual_size(),
    {
    }

    /// A new, empty buffer.
    pub fn new() -> (b: PersistentGpuBuffer)
        ensures
            b.wf(),
            b.spec_virtual_size() == 0,
            b.spec_committed_size() == 0,
            b.logical() == Seq::<u8>::empty(),
    {
        let b = PersistentGpuBuffer {
            arena: Vec::new(),
            committed_size: 0,
            virtual_size: 0,
            pending: Vec::new(),
        };
        proof {
            assert(b.logical() =~= Seq::<u8>::empty());
        }
        b
    }

    /// Current size of the virtual buffer in bytes.
    pub fn virtual_size(&self) -> (n: u64)
        ensures
            n == self.spec_virtual_size(),
    {
        self.virtual_size
    }

    /// The backing arena's bytes: everything committed so far, plus any
    /// spare capacity.
    pub fn arena_bytes(&self) -> (r: &Vec<u8>)
        ensures
            r@ == self.spec_arena(),
    {
        &self.arena
    }

    /// Appends a logical item to the pending-write queue, reserving and
    /// returning its byte range in the virtual buffer.
    pub fn queue_write_bytes(&mut self, bytes: Vec<u8>) -> (slice: BufferSlice)
        requires
            old(self).wf(),
            old(self).spec_virtual_size() + bytes@.len() <= u64::MAX,
        ensures
            final(self).wf(),
            slice.start == old(self).spec_virtual_size(),
            slice.end == slice.start + bytes@.len(),
            final(self).spec_virtual_size() == slice.end,
            final(self).spec_committed_size() == old(self).spec_committed_size(),
            final(self).spec_arena() == old(self).spec_arena(),
            final(self).logical() == old(self).logical() + bytes@,
    {
        let start = self.virtual_size;
        let len = bytes.len() as u64;
        let ghost old_pending = self.pending@;
        let ghost bytes_view = bytes@;
        self.pending.push(bytes);
        self.virtual_size = start + len;
        proof {
            assert(self.pending@ == old_pending.push(self.pending@.last()));
            lemma_chunks_concat_push(old_pending, self.pending@.last());
            assert(self.logical() =~= old(self).logical() + bytes_view);
        }
        BufferSlice { start, end: start + len }
    }

    /// Grows the arena to the virtual size if needed — preserving all
    /// previously-written bytes — then lands every queued chunk at its
    /// reserved offset and empties the queue.
    pub fn perform_writes(&mut self)
        requires
            old(self).wf(),
        ensures
            final(self).wf(),
            final(self).spec_virtual_size() == old(self).spec_virtual_size(),
            final(self).spec_committed_size() == old(self).spec_virtual_size(),
            final(self).spec_arena().len() >= old(self).spec_virtual_size(),
            final(self).spec_arena().subrange(0, old(self).spec_virtual_size() as int) == old(
                self,
            ).logical(),
            final(self).logical() == old(self).logical(),
    {
        let ghost logical0 = old(self).logical();
        proof {
            old(self).lemma_logical_len();
        }
        // Grow the arena, keeping its existing contents.
        while (self.arena.len() as u64) < self.virtual_size
            invariant
                self.virtual_size == old(self).spec_virtual_size(),
                self.committed_size == old(self).spec_committed_size(),
                self.pending@ == old(self).pending@,
                self.arena@.len() >= old(self).spec_arena().len(),
                self.arena@.subrange(0, old(self).spec_arena().len() as int) == old(
                    self,
                ).spec_arena(),
            decreases self.virtual_size - self.arena@.len(),
        {
            self.arena.push(0);
            proof {
                assert(self.arena@.subrange(0, old(self).spec_arena().len() as int) =~= old(
                    self,
                ).spec_arena());
            }
        }
        let ghost grown_len = self.arena@.len();
        proof {
            assert(self.arena@.subrange(0, self.committed_size as int) =~= old(
                self,
            ).spec_arena().subrange(0, self.committed_size as int));
            assert(logical0 =~= self.arena@.subrange(0, self.committed_size as int)
                + chunks_concat(self.pending@));
            assert(self.pending@.skip(0) =~= self.pending@);
        }
        // Land each queued chunk after the bytes already in place.
        let mut pos: u64 = self.committed_size;
        let mut w: usize = 0;
        while w < self.pending.len()
            invariant
                self.virtual_size == old(self).spec_virtual_size(),
                self.committed_size == old(self).spec_committed_size(),
                self.pending@ == old(self).pending@,
                self.arena@.len() == grown_len >= self.virtual_size,
                logical0.len() == self.virtual_size,
                0 <= w <= self.pending@.len(),
                self.committed_size <= pos <= self.virtual_size,
                logical0 == self.arena@.subrange(0, pos as int) + chunks_concat(
                    self.pending@.skip(w as int),
                ),
            decreases self.pending@.len() - w,
        {
            let ghost pos0 = pos;
            proof {
                lemma_chunks_concat_skip(self.pending@, w as int);
            }
            let count = self.pending[w].len();
            let mut j: usize = 0;
            while j < count
                invariant
                    w < self.pending@.len(),
                    count == self.pending@[w as int]@.len(),
                    0 <= j <= count,
                    pos == pos0 + j,
                    pos0 + count <= self.virtual_size,
                    self.virtual_size == old(self).spec_virtual_size(),
                    self.committed_size == old(self).spec_committed_size(),
                    self.pending@ == old(self).pending@,
                    self.arena@.len() == grown_len >= self.virtual_size,
                    logical0.len() == self.virtual_size,
                    logical0 == self.arena@.subrange(0, pos as int) + self.pending@[w as int]@.skip(
                        j as int,
                    ) + chunks_concat(self.pending@.skip(w as int + 1)),
                decreases count - j,
            {
                let ghost arena_mid = self.arena@;
                let b = self.pending[w][j];
                let alen = self.arena.len();
                proof {
                    assert(pos < alen as u64);
                }
                self.arena.set(pos as usize, b);
                pos = pos + 1;
                j = j + 1;
                proof {
                    let p = (pos - 1) as int;
                    assert(self.arena@ == arena_mid.update(p, b));
                    assert(logical0[p] == self.pending@[w as int]@[j - 1]) by {
                        assert(logical0[p] == (self.pending@[w as int]@.skip(j - 1)
                            + chunks_concat(self.pending@.skip(w as int + 1)))[0]);
                    }
                    assert(b == self.pending@[w as int]@[j - 1]);
                    assert(self.arena@.subrange(0, pos as int) =~= arena_mid.subrange(0, p).push(
                        logical0[p],
                    ));
                    assert(logical0 =~= self.arena@.subrange(0, pos as int)
                        + self.pending@[w as int]@.skip(j as int) + chunks_concat(
                        self.pending@.skip(w as int + 1),
                    ));
                }
            }
            proof {
                assert(self.pending@[w as int]@.skip(count as int) =~= Seq::<u8>::empty());
                assert(logical0 =~= self.arena@.subrange(0, pos as int) + chunks_concat(
                    self.pending@.skip(w as int + 1),
                ));
            }
            w = w + 1;
        }
        proof {
            assert(self.pending@.skip(self.pending@.len() as int) =~= Seq::<Vec<u8>>::empty());
            assert(pos == self.virtual_size);
            assert(self.arena@.subrange(0, self.virtual_size as int) =~= logical0);
        }
        self.committed_size = self.virtual_size;
        self.pending = Vec::new();
        proof {
            assert(self.logical() =~= logical0);
        }
    }
}

} // verus!

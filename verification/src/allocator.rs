//! Allocation primitives: owned aligned buffers and chunked bump arenas.
//!
//! Buffers are modelled as owned byte vectors: ownership is exclusive and
//! moved, never duplicated, so a buffer is released exactly once, when its
//! last owner goes out of scope.  Every buffer handed out by an allocator
//! of this module is zero-initialised.

use vstd::prelude::*;

use crate::error::DBError;

verus! {

/// Minimum alignment requested for column data.
///
/// Sized for 256-bit SIMD register width so that downstream numeric
/// kernels may treat any column buffer as a vector of aligned lanes.
pub const MIN_ALIGN: usize = 32;

/// Build a zero-filled byte vector of length `n`.
pub(crate) fn zero_vec(n: usize) -> (v: Vec<u8>)
    ensures
        v@.len() == n,
        forall|i: int| 0 <= i < n ==> v@[i] == 0,
{
    let mut v: Vec<u8> = Vec::new();
    while v.len() < n
        invariant
            v@.len() <= n,
            forall|i: int| 0 <= i < v@.len() ==> v@[i] == 0,
        decreases n - v@.len(),
    {
        v.push(0);
    }
    v
}

/// Overwrite `v[off .. off + data.len())` with `data`, leaving every other
/// byte unchanged.
pub(crate) fn write_bytes_at(v: &mut Vec<u8>, off: usize, data: &[u8])
    requires
        off + data@.len() <= old(v)@.len(),
    ensures
        final(v)@.len() == old(v)@.len(),
        forall|i: int| 0 <= i < data@.len() ==> final(v)@[off + i] == data@[i],
        forall|i: int|
            0 <= i < old(v)@.len() && !(off <= i < off + data@.len()) ==> final(v)@[i] == old(
                v,
            )@[i],
{
    let total = v.len();
    let mut k: usize = 0;
    while k < data.len()
        invariant
            off + data@.len() <= v@.len(),
            k <= data@.len(),
            v@.len() == total,
            v@.len() == old(v)@.len(),
            forall|i: int| 0 <= i < k ==> v@[off + i] == data@[i],
            forall|i: int|
                0 <= i < old(v)@.len() && !(off <= i < off + data@.len()) ==> v@[i] == old(v)@[i],
        decreases data@.len() - k,
    {
        v[off + k] = data[k];
        k = k + 1;
    }
}

/// Chunk of memory with exclusive ownership of its buffer.
pub struct OwnedChunk {
    /// The owned buffer; `None` exactly when the chunk has never been
    /// allocated or has already been released.
    pub data: Option<Vec<u8>>,
    /// Alignment the buffer was requested with.
    pub align: usize,
}

impl OwnedChunk {
    /// The bytes held by the chunk; empty when the chunk owns nothing.
    pub open spec fn spec_bytes(&self) -> Seq<u8> {
        match self.data {
            Some(v) => v@,
            None => Seq::empty(),
        }
    }

    /// True when the chunk owns no buffer.
    pub open spec fn spec_is_null(&self) -> bool {
        self.data is None
    }

    pub open spec fn spec_len(&self) -> nat {
        self.spec_bytes().len()
    }

    /// Create a chunk owning nothing.
    pub fn empty() -> (c: OwnedChunk)
        ensures
            c.spec_is_null(),
            c.spec_len() == 0,
            c.align == MIN_ALIGN,
    {
        OwnedChunk { data: None, align: MIN_ALIGN }
    }

    pub fn is_null(&self) -> (b: bool)
        ensures
            b == self.spec_is_null(),
    {
        self.data.is_none()
    }

    pub fn len(&self) -> (l: usize)
        ensures
            l == self.spec_len(),
    {
        match &self.data {
            Some(v) => v.len(),
            None => 0,
        }
    }

    /// Resize the chunk's buffer in place, keeping the common prefix of the
    /// old contents and zero-filling any newly grown tail.  A chunk that
    /// owns nothing cannot be resized and reports a `Memory` error.
    pub fn resize(&mut self, size: usize) -> (r: Option<DBError>)
        ensures
            old(self).spec_is_null() ==> r == Some(DBError::Memory) && *final(self) == *old(self),
            !old(self).spec_is_null() ==> {
                &&& r is None
                &&& !final(self).spec_is_null()
                &&& final(self).align == old(self).align
                &&& final(self).spec_len() == size
                &&& forall|i: int|
                    0 <= i < size && i < old(self).spec_len() ==> final(self).spec_bytes()[i] == old(
                        self,
                    ).spec_bytes()[i]
                &&& forall|i: int|
                    old(self).spec_len() <= i < size ==> final(self).spec_bytes()[i] == 0
            },
    {
        match &mut self.data {
            Some(v) => {
                if size <= v.len() {
                    v.truncate(size);
                } else {
                    while v.len() < size
                        invariant
                            v@.len() <= size,
                            old(self).data matches Some(w) && v@.len() >= w@.len() && forall|i: int|
                                0 <= i < w@.len() ==> v@[i] == w@[i],
                            old(self).data matches Some(w) && forall|i: int|
                                w@.len() <= i < v@.len() ==> v@[i] == 0,
                        decreases size - v@.len(),
                    {
                        v.push(0);
                    }
                }
                None
            },
            None => Some(DBError::Memory),
        }
    }
}

/// Memory-acquisition capability used throughout the engine.
///
/// Implementations must be safe to share across concurrent callers and
/// hand out zero-initialised buffers.
pub trait Allocator {
    /// Acquire a buffer of `size` bytes at the engine's minimum alignment.
    fn allocate(&self, size: usize) -> (r: Result<OwnedChunk, DBError>)
        ensures
            r matches Ok(c) ==> {
                &&& !c.spec_is_null()
                &&& c.spec_len() == size
                &&& c.align == MIN_ALIGN
                &&& forall|i: int| 0 <= i < size ==> c.spec_bytes()[i] == 0
            },
    ;

    /// Acquire a buffer of `size` bytes at the given alignment.
    fn allocate_aligned(&self, size: usize, align: usize) -> (r: Result<OwnedChunk, DBError>)
        ensures
            r matches Ok(c) ==> {
                &&& !c.spec_is_null()
                &&& c.spec_len() == size
                &&& c.align == align
                &&& forall|i: int| 0 <= i < size ==> c.spec_bytes()[i] == 0
            },
    ;

    /// Resize a chunk, preferring in-place growth, keeping the common
    /// prefix of the contents and zero-filling any grown tail.
    fn resize(&self, prev: &mut OwnedChunk, size: usize) -> (r: Option<DBError>)
        ensures
            r is Some ==> *final(prev) == *old(prev),
            r is None ==> {
                &&& !final(prev).spec_is_null()
                &&& final(prev).align == old(prev).align
                &&& final(prev).spec_len() == size
                &&& forall|i: int|
                    0 <= i < size && i < old(prev).spec_len() ==> final(prev).spec_bytes()[i] == old(
                        prev,
                    ).spec_bytes()[i]
                &&& forall|i: int|
                    old(prev).spec_len() <= i < size ==> final(prev).spec_bytes()[i] == 0
            },
    ;

    /// Release a chunk back to this allocator; afterwards the chunk owns
    /// nothing, so a release happens at most once per buffer.
    fn putback(&self, data: &mut OwnedChunk)
        ensures
            final(data).spec_is_null(),
    ;
}

/// Simple heap allocator without memory tracking.
#[derive(Clone, Copy)]
pub struct HeapAllocator {}

impl HeapAllocator {
    /// Acquire a buffer from the process heap; this never fails, because
    /// the underlying heap aborts instead of reporting exhaustion.
    pub fn heap_allocate_aligned(&self, size: usize, align: usize) -> (c: OwnedChunk)
        ensures
            !c.spec_is_null(),
            c.spec_len() == size,
            c.align == align,
            forall|i: int| 0 <= i < size ==> c.spec_bytes()[i] == 0,
    {
        OwnedChunk { data: Some(zero_vec(size)), align }
    }

    /// Acquire a buffer at the engine's minimum alignment; never fails.
    pub fn heap_allocate(&self, size: usize) -> (c: OwnedChunk)
        ensures
            !c.spec_is_null(),
            c.spec_len() == size,
            c.align == MIN_ALIGN,
            forall|i: int| 0 <= i < size ==> c.spec_bytes()[i] == 0,
    {
        self.heap_allocate_aligned(size, MIN_ALIGN)
    }
}

impl Allocator for HeapAllocator {
    fn allocate(&self, size: usize) -> (r: Result<OwnedChunk, DBError>)
        ensures
            r is Ok,
    {
        Ok(self.heap_allocate(size))
    }

    fn allocate_aligned(&self, size: usize, align: usize) -> (r: Result<OwnedChunk, DBError>)
        ensures
            r is Ok,
    {
        Ok(self.heap_allocate_aligned(size, align))
    }

    fn resize(&self, prev: &mut OwnedChunk, size: usize) -> (r: Option<DBError>)
        ensures
            r is Some ==> old(prev).spec_is_null(),
    {
        prev.resize(size)
    }

    fn putback(&self, data: &mut OwnedChunk) {
        data.data = None;
    }
}

/// Location of an arena append: chunk index and byte offset in that chunk.
#[derive(Clone, Copy, PartialEq, Eq, Structural, Debug)]
pub struct ArenaAppend(pub usize, pub usize);

/// Arena-styled allocator.  Stores data in non-relocatable chunks: a chunk,
/// once allocated, is never moved, resized or released until the whole
/// arena is dropped, so every location handed out by `append` stays valid
/// for the arena's lifetime.
///
/// Policy: each new chunk doubles the previous chunk's size, capped at
/// `max_size` and seeded by `min_size`; a chunk is always made large
/// enough for the value that triggered its allocation.
pub struct ChainedArena {
    parent: HeapAllocator,
    chunks: Vec<Vec<u8>>,
    min_size: usize,
    max_size: usize,
    pos: usize,
}

impl ChainedArena {
    pub closed spec fn spec_chunks(&self) -> Seq<Seq<u8>> {
        self.chunks@.map_values(|c: Vec<u8>| c@)
    }

    pub open spec fn spec_chunk_count(&self) -> nat {
        self.spec_chunks().len()
    }

    /// Write frontier in the last chunk.
    pub closed spec fn spec_pos(&self) -> nat {
        self.pos as nat
    }

    pub closed spec fn spec_min(&self) -> nat {
        self.min_size as nat
    }

    pub closed spec fn spec_max(&self) -> nat {
        self.max_size as nat
    }

    pub open spec fn spec_last_len(&self) -> nat {
        self.spec_chunks().last().len()
    }

    pub open spec fn wf(&self) -> bool {
        if self.spec_chunk_count() == 0 {
            self.spec_pos() == 0
        } else {
            self.spec_pos() <= self.spec_last_len()
        }
    }

    /// A location already handed out: any byte of a non-last chunk, or a
    /// byte of the last chunk below the write frontier.
    pub open spec fn valid_loc(&self, i: int, j: int) -> bool {
        &&& 0 <= i < self.spec_chunk_count()
        &&& 0 <= j
        &&& if i == self.spec_chunk_count() - 1 {
            j < self.spec_pos()
        } else {
            j < self.spec_chunks()[i].len()
        }
    }

    pub open spec fn byte_at(&self, i: int, j: int) -> u8 {
        self.spec_chunks()[i][j]
    }

    /// Every location already handed out by `pre` is still a location of
    /// `post`, with its bytes unchanged.
    pub open spec fn preserves(pre: ChainedArena, post: ChainedArena) -> bool {
        forall|i: int, j: int|
            pre.valid_loc(i, j) ==> post.valid_loc(i, j) && post.byte_at(i, j) == pre.byte_at(i, j)
    }

    /// Stability is transitive: a location handed out before any number
    /// of later arena operations, each of which preserves locations,
    /// keeps its bytes through all of them.
    pub proof fn lemma_preserves_trans(a: ChainedArena, b: ChainedArena, c: ChainedArena)
        requires
            ChainedArena::preserves(a, b),
            ChainedArena::preserves(b, c),
        ensures
            ChainedArena::preserves(a, c),
    {
    }

    /// Whether a request of `n` bytes fits in the current chunk.
    pub open spec fn spec_fits(&self, n: nat) -> bool {
        self.spec_chunk_count() > 0 && self.spec_pos() + n <= self.spec_last_len()
    }

    /// The location the next request of `n` bytes will be placed at.
    pub open spec fn spec_loc(&self, n: nat) -> (int, int) {
        if self.spec_fits(n) {
            (self.spec_chunk_count() - 1, self.spec_pos() as int)
        } else {
            (self.spec_chunk_count() as int, 0)
        }
    }

    /// Size of the chunk allocated for a request of `n` bytes that does
    /// not fit in the current chunk.
    pub open spec fn spec_grown_len(&self, n: nat) -> nat {
        let cand = if self.spec_chunk_count() == 0 {
            self.spec_min()
        } else if 2 * self.spec_last_len() <= self.spec_max() {
            2 * self.spec_last_len()
        } else {
            self.spec_max()
        };
        if cand < n {
            n
        } else {
            cand
        }
    }

    /// Create an arena drawing chunks from the given allocator, with the
    /// given seed and cap for the chunk-doubling policy.
    pub fn new(alloc: &HeapAllocator, min_size: usize, max_size: usize) -> (a: ChainedArena)
        ensures
            a.wf(),
            a.spec_chunk_count() == 0,
            a.spec_pos() == 0,
            a.spec_min() == min_size,
            a.spec_max() == max_size,
    {
        ChainedArena {
            parent: *alloc,
            chunks: Vec::new(),
            min_size,
            max_size,
            pos: 0,
        }
    }

    /// Reserve `size` bytes of arena space, growing by a fresh chunk when
    /// the current chunk cannot satisfy the request.  Fails fast, changing
    /// nothing, if a single request exceeds `max_size`.
    pub fn allocate(&mut self, size: usize) -> (r: Result<ArenaAppend, DBError>)
        requires
            old(self).wf(),
        ensures
            final(self).wf(),
            final(self).spec_min() == old(self).spec_min(),
            final(self).spec_max() == old(self).spec_max(),
            size > old(self).spec_max() ==> r == Err::<ArenaAppend, DBError>(DBError::MemoryLimit)
                && *final(self) == *old(self),
            size <= old(self).spec_max() ==> {
                &&& r matches Ok(loc)
                &&& (loc.0 as int, loc.1 as int) == old(self).spec_loc(size as nat)
                &&& loc.0 as int == final(self).spec_chunk_count() - 1
                &&& final(self).spec_pos() == loc.1 + size
                &&& loc.1 + size <= final(self).spec_last_len()
                &&& if old(self).spec_fits(size as nat) {
                    &&& final(self).spec_chunk_count() == old(self).spec_chunk_count()
                    &&& final(self).spec_chunks() == old(self).spec_chunks()
                } else {
                    &&& final(self).spec_chunk_count() == old(self).spec_chunk_count() + 1
                    &&& final(self).spec_chunks() == old(self).spec_chunks().push(
                        Seq::new(old(self).spec_grown_len(size as nat), |i: int| 0u8),
                    )
                }
            },
            ChainedArena::preserves(*old(self), *final(self)),
    {
        if size > self.max_size {
            return Err(DBError::MemoryLimit);
        }
        let count = self.chunks.len();
        if count > 0 {
            let last_len = self.chunks[count - 1].len();
            if last_len - self.pos >= size {
                let off = self.pos;
                self.pos = self.pos + size;
                return Ok(ArenaAppend(count - 1, off));
            }
        }
        let cand = if count == 0 {
            self.min_size
        } else {
            let last_len = self.chunks[count - 1].len();
            if last_len <= self.max_size / 2 && 2 * last_len <= self.max_size {
                2 * last_len
            } else {
                self.max_size
            }
        };
        let new_size = if cand < size {
            size
        } else {
            cand
        };
        let chunk = self.parent.heap_allocate(new_size);
        let buf = match chunk.data {
            Some(v) => v,
            None => {
                proof {
                    assert(false);
                }
                Vec::new()
            },
        };
        proof {
            assert(buf@ =~= Seq::new(old(self).spec_grown_len(size as nat), |i: int| 0u8));
        }
        self.chunks.push(buf);
        self.pos = size;
        proof {
            assert(self.spec_chunks() =~= old(self).spec_chunks().push(
                Seq::new(old(self).spec_grown_len(size as nat), |i: int| 0u8),
            ));
        }
        Ok(ArenaAppend(self.chunks.len() - 1, 0))
    }

    /// Copy `data` into arena space and return the location written.
    /// Every location handed out earlier keeps its bytes unchanged.
    pub fn append(&mut self, data: &[u8]) -> (r: Result<ArenaAppend, DBError>)
        requires
            old(self).wf(),
        ensures
            final(self).wf(),
            final(self).spec_min() == old(self).spec_min(),
            final(self).spec_max() == old(self).spec_max(),
            data@.len() > old(self).spec_max() ==> r == Err::<ArenaAppend, DBError>(
                DBError::MemoryLimit,
            ) && *final(self) == *old(self),
            data@.len() <= old(self).spec_max() ==> {
                &&& r matches Ok(loc)
                &&& (loc.0 as int, loc.1 as int) == old(self).spec_loc(data@.len())
                &&& loc.0 as int == final(self).spec_chunk_count() - 1
                &&& final(self).spec_pos() == loc.1 + data@.len()
                &&& loc.1 + data@.len() <= final(self).spec_last_len()
                &&& forall|k: int|
                    0 <= k < data@.len() ==> final(self).byte_at(loc.0 as int, loc.1 + k)
                        == data@[k]
                &&& final(self).spec_chunk_count() == if old(self).spec_fits(data@.len()) {
                    old(self).spec_chunk_count()
                } else {
                    old(self).spec_chunk_count() + 1
                }
            },
            ChainedArena::preserves(*old(self), *final(self)),
    {
        let loc = match self.allocate(data.len()) {
            Ok(loc) => loc,
            Err(e) => {
                return Err(e);
            },
        };
        let ghost mid = *self;
        let chunk = &mut self.chunks[loc.0];
        write_bytes_at(chunk, loc.1, data);
        proof {
            assert(self.spec_chunks() =~= mid.spec_chunks().update(
                loc.0 as int,
                self.spec_chunks()[loc.0 as int],
            ));
        }
        Ok(loc)
    }

    /// Copy `len` bytes out of the arena, starting at the given location.
    /// Fails with `RowOutOfBounds` when the location does not name a byte
    /// range of an allocated chunk.
    pub fn get(&self, chunk: usize, offset: usize, len: usize) -> (r: Result<Vec<u8>, DBError>)
        ensures
            (chunk < self.spec_chunk_count() && offset + len <= self.spec_chunks()[chunk as int].len())
                <==> r is Ok,
            r matches Ok(v) ==> v@ == self.spec_chunks()[chunk as int].subrange(
                offset as int,
                offset + len,
            ),
            r is Err ==> r == Err::<Vec<u8>, DBError>(DBError::RowOutOfBounds),
    {
        if chunk >= self.chunks.len() {
            return Err(DBError::RowOutOfBounds);
        }
        let c = &self.chunks[chunk];
        let clen = c.len();
        if offset > clen || len > clen - offset {
            return Err(DBError::RowOutOfBounds);
        }
        let mut out: Vec<u8> = Vec::new();
        let mut k: usize = 0;
        while k < len
            invariant
                k <= len,
                offset + len <= c@.len(),
                c@.len() == clen,
                c@ == self.spec_chunks()[chunk as int],
                out@ =~= self.spec_chunks()[chunk as int].subrange(offset as int, offset + k),
            decreases len - k,
        {
            out.push(c[offset + k]);
            k = k + 1;
        }
        proof {
            assert(out@ =~= self.spec_chunks()[chunk as int].subrange(offset as int, offset + len));
        }
        Ok(out)
    }
}

} // verus!

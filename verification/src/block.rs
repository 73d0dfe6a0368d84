//! Containers for columnar data: typed columns, schema-conforming blocks,
//! and zero-copy views over their row storage.
//!
//! A [`Column`] stores fixed-width rows in one owned buffer, an optional
//! null bitmap in a second buffer, and the payloads of variable-length
//! rows in an owned append-only arena.  A [`Block`] owns one column per
//! schema attribute, all sharing one capacity and one logical row count.
//! An [`AliasColumn`] borrows a row range of a column's storage without
//! copying, and a [`RefView`] groups such aliases under a schema.

use vstd::prelude::*;

use crate::allocator::{write_bytes_at, Allocator, ChainedArena, HeapAllocator, OwnedChunk};
use crate::error::DBError;
use crate::math::round_up;
use crate::row::{RowOffset, RowRange};
use crate::schema::{Attribute, Schema};
use crate::types::{RawData, ValueInfo};

verus! {

/// Starting size for the variable-length arena of a column.
pub const ARENA_MIN_SIZE: usize = 32;

/// Cap on arena chunk size; also the limit on the largest single
/// variable-length value a column can store (16 MB).
pub const ARENA_MAX_SIZE: usize = 16 * 1024 * 1024;

/// `post` is `pre` regrown: the common prefix is preserved and any new
/// tail is zero-filled.
pub open spec fn regrown(pre: Seq<u8>, post: Seq<u8>) -> bool {
    &&& forall|k: int| 0 <= k < pre.len() && k < post.len() ==> #[trigger] post[k] == pre[k]
    &&& forall|k: int| pre.len() <= k < post.len() ==> #[trigger] post[k] == 0
}

/// `post` is `pre` with the window at `off` replaced by `patch` and every
/// other byte unchanged.
pub open spec fn spliced(pre: Seq<u8>, off: int, patch: Seq<u8>, post: Seq<u8>) -> bool {
    &&& post.len() == pre.len()
    &&& forall|k: int| off <= k < off + patch.len() ==> #[trigger] post[k] == patch[k - off]
    &&& forall|k: int|
        0 <= k < pre.len() && !(off <= k < off + patch.len()) ==> #[trigger] post[k] == pre[k]
}

/// Reference to column data.  The data can be owned by the current object
/// or borrowed from another one.
pub trait RefColumn {
    /// Well-formedness of this reference's storage bookkeeping.
    spec fn wf(&self) -> bool;

    /// The attribute this column stores rows of.
    spec fn spec_attr(&self) -> Attribute;

    /// The raw bytes of the fixed-width row storage.
    spec fn row_bytes(&self) -> Seq<u8>;

    /// The raw bytes of the null bitmap; empty when the attribute is not
    /// nullable.
    spec fn null_bytes(&self) -> Seq<u8>;

    /// Row capacity of the storage.
    spec fn spec_capacity(&self) -> nat;

    /// The byte window of row `i`.
    spec fn row_window(&self, i: int) -> Seq<u8>;

    /// Every implementor's well-formedness entails these storage facts:
    /// the row buffer holds exactly `spec_capacity` rows of the
    /// attribute's width, a row's window is the matching slice of it, and
    /// the null bitmap has one byte per row slot exactly when the
    /// attribute is nullable.
    proof fn storage_coherent(&self)
        requires
            self.wf(),
        ensures
            self.row_bytes().len() == self.spec_capacity() * self.spec_attr().dtype.spec_size_of(),
            self.null_bytes().len() == if self.spec_attr().nullable {
                self.spec_capacity()
            } else {
                0
            },
            forall|i: int|
                #[trigger] self.row_window(i) == self.row_bytes().subrange(
                    i * self.spec_attr().dtype.spec_size_of(),
                    i * self.spec_attr().dtype.spec_size_of()
                        + self.spec_attr().dtype.spec_size_of(),
                ),
    ;

    fn attribute(&self) -> (a: &Attribute)
        ensures
            *a == self.spec_attr(),
    ;

    fn capacity(&self) -> (c: usize)
        requires
            self.wf(),
        ensures
            c == self.spec_capacity(),
    ;

    fn rows_raw_slice(&self) -> (s: &[u8])
        requires
            self.wf(),
        ensures
            s@ == self.row_bytes(),
    ;

    fn nulls_raw_slice(&self) -> (s: &[u8])
        requires
            self.wf(),
        ensures
            s@ == self.null_bytes(),
    ;
}

/// Typed data column: a vector of fixed-width column rows, an optional
/// null vector, and an arena owning variable-length payloads.
///
/// Knows its capacity but not a row count; the logical row count belongs
/// to the parent container (such as a [`Block`]).
pub struct Column {
    allocator: HeapAllocator,
    attr: Attribute,
    raw_nulls: OwnedChunk,
    raw: OwnedChunk,
    arena: ChainedArena,
}

impl Column {
    pub closed spec fn spec_arena(&self) -> ChainedArena {
        self.arena
    }

    /// Storage invariant: both buffers are allocated, the row buffer holds
    /// a whole number of rows, the null bitmap has one byte per row slot
    /// exactly when the attribute is nullable, and the arena is coherent.
    pub open spec fn wf_col(&self) -> bool {
        &&& !self.raw_bytes_chunk().spec_is_null()
        &&& !self.null_bytes_chunk().spec_is_null()
        &&& self.row_bytes().len() % self.spec_attr().dtype.spec_size_of() == 0
        &&& self.null_bytes().len() == if self.spec_attr().nullable {
            self.spec_capacity()
        } else {
            0
        }
        &&& self.spec_arena().wf()
    }

    pub closed spec fn raw_bytes_chunk(&self) -> OwnedChunk {
        self.raw
    }

    pub closed spec fn null_bytes_chunk(&self) -> OwnedChunk {
        self.raw_nulls
    }

    /// Create an empty column for one schema attribute.
    pub fn new(a: &HeapAllocator, attr: Attribute) -> (c: Column)
        ensures
            c.wf_col(),
            c.spec_attr() == attr,
            c.spec_capacity() == 0,
            c.row_bytes().len() == 0,
            c.null_bytes().len() == 0,
            c.spec_arena().spec_chunk_count() == 0,
            c.spec_arena().spec_min() == ARENA_MIN_SIZE,
            c.spec_arena().spec_max() == ARENA_MAX_SIZE,
    {
        Column {
            allocator: *a,
            attr,
            raw_nulls: a.heap_allocate(0),
            raw: a.heap_allocate(0),
            arena: ChainedArena::new(a, ARENA_MIN_SIZE, ARENA_MAX_SIZE),
        }
    }

    /// The column's append-only arena, for writers storing
    /// variable-length values.
    pub fn arena(&mut self) -> (a: &mut ChainedArena)
        ensures
            *a == old(self).spec_arena(),
            final(self).spec_arena() == *final(a),
            final(self).spec_attr() == old(self).spec_attr(),
            final(self).row_bytes() == old(self).row_bytes(),
            final(self).null_bytes() == old(self).null_bytes(),
            final(self).raw_bytes_chunk() == old(self).raw_bytes_chunk(),
            final(self).null_bytes_chunk() == old(self).null_bytes_chunk(),
    {
        &mut self.arena
    }

    /// Mutable access to the null bitmap; errors with an
    /// `AttributeNullability` condition if the attribute is not nullable.
    pub fn nulls_mut(&mut self) -> (r: Result<&mut Vec<u8>, DBError>)
        requires
            old(self).wf_col(),
        ensures
            !old(self).spec_attr().nullable ==> {
                &&& *final(self) == *old(self)
                &&& (r matches Err(e) && (e matches DBError::AttributeNullability(s) && s@ == old(
                    self,
                ).spec_attr().name@))
            },
            old(self).spec_attr().nullable ==> {
                &&& r is Ok
                &&& (*r.unwrap())@ == old(self).null_bytes()
                &&& final(self).null_bytes() == (*final(r.unwrap()))@
                &&& final(self).spec_attr() == old(self).spec_attr()
                &&& final(self).row_bytes() == old(self).row_bytes()
                &&& final(self).spec_arena() == old(self).spec_arena()
                &&& !final(self).null_bytes_chunk().spec_is_null()
                &&& final(self).raw_bytes_chunk() == old(self).raw_bytes_chunk()
            },
    {
        if !self.attr.nullable {
            return Err(DBError::AttributeNullability(self.attr.name.clone()));
        }
        match &mut self.raw_nulls.data {
            Some(v) => Ok(v),
            None => {
                proof {
                    assert(false);
                }
                Err(DBError::Unknown)
            },
        }
    }

    /// Set the null marker of one row; errors with an
    /// `AttributeNullability` condition if the attribute is not nullable.
    pub fn write_null(&mut self, row: usize, value: u8) -> (r: Result<(), DBError>)
        requires
            old(self).wf_col(),
        ensures
            final(self).wf_col(),
            final(self).spec_attr() == old(self).spec_attr(),
            final(self).spec_capacity() == old(self).spec_capacity(),
            final(self).row_bytes() == old(self).row_bytes(),
            final(self).spec_arena() == old(self).spec_arena(),
            r is Ok <==> (old(self).spec_attr().nullable && row < old(self).spec_capacity()),
            r is Ok ==> spliced(old(self).null_bytes(), row as int, seq![value], final(self).null_bytes()),
            r is Err ==> *final(self) == *old(self),
            !old(self).spec_attr().nullable ==> (r matches Err(e) && (e
                matches DBError::AttributeNullability(s) && s@ == old(self).spec_attr().name@)),
            old(self).spec_attr().nullable && row >= old(self).spec_capacity() ==> r == Err::<
                (),
                DBError,
            >(DBError::RowOutOfBounds),
    {
        if !self.attr.nullable {
            return Err(DBError::AttributeNullability(self.attr.name.clone()));
        }
        match &mut self.raw_nulls.data {
            Some(v) => {
                if row >= v.len() {
                    return Err(DBError::RowOutOfBounds);
                }
                v[row] = value;
                Ok(())
            },
            None => {
                proof {
                    assert(false);
                }
                Err(DBError::Unknown)
            },
        }
    }

    /// Overwrite the fixed-width window of one row.
    pub(crate) fn write_row_bytes(&mut self, row: usize, bytes: &[u8])
        requires
            old(self).wf_col(),
            row < old(self).spec_capacity(),
            bytes@.len() == old(self).spec_attr().dtype.spec_size_of(),
        ensures
            final(self).wf_col(),
            final(self).spec_attr() == old(self).spec_attr(),
            final(self).spec_capacity() == old(self).spec_capacity(),
            final(self).null_bytes() == old(self).null_bytes(),
            final(self).spec_arena() == old(self).spec_arena(),
            spliced(
                old(self).row_bytes(),
                row as int * old(self).spec_attr().dtype.spec_size_of() as int,
                bytes@,
                final(self).row_bytes(),
            ),
    {
        let w = self.attr.dtype.size_of();
        proof {
            let cap = self.spec_capacity() as int;
            let len = self.row_bytes().len() as int;
            let wi = w as int;
            assert(len == cap * wi) by (nonlinear_arith)
                requires
                    wi >= 1,
                    cap == len / wi,
                    len % wi == 0,
            ;
            assert((row as int) * wi + wi <= cap * wi && (row as int) * wi >= 0)
                by (nonlinear_arith)
                requires
                    wi >= 1,
                    0 <= (row as int) < cap,
            ;
        }
        let len = self.raw.len();
        proof {
            assert(row as int * w as int + w as int <= len as int);
        }
        match &mut self.raw.data {
            Some(v) => {
                write_bytes_at(v, row * w, bytes);
            },
            None => {
                proof {
                    assert(false);
                }
            },
        }
    }

    /// Copy `data` into the column's arena and store its location record
    /// in the fixed-width window of `row`.  This is the two-step protocol
    /// for variable-length values: the column never aliases externally
    /// supplied bytes, it always copies them in.
    pub fn write_var(&mut self, row: usize, data: &[u8]) -> (r: Result<RawData, DBError>)
        requires
            old(self).wf_col(),
            row < old(self).spec_capacity(),
            old(self).spec_attr().dtype.spec_size_of() == 24,
        ensures
            final(self).wf_col(),
            final(self).spec_attr() == old(self).spec_attr(),
            final(self).spec_capacity() == old(self).spec_capacity(),
            final(self).null_bytes() == old(self).null_bytes(),
            r is Ok <==> data@.len() <= old(self).spec_arena().spec_max(),
            r is Err ==> *final(self) == *old(self) && r == Err::<RawData, DBError>(
                DBError::MemoryLimit,
            ),
            r matches Ok(rec) ==> {
                &&& (rec.chunk as int, rec.offset as int) == old(self).spec_arena().spec_loc(
                    data@.len(),
                )
                &&& rec.size == data@.len()
                &&& rec.chunk as int == final(self).spec_arena().spec_chunk_count() - 1
                &&& forall|k: int|
                    0 <= k < data@.len() ==> final(self).spec_arena().byte_at(
                        rec.chunk as int,
                        rec.offset + k,
                    ) == data@[k]
                &&& ChainedArena::preserves(old(self).spec_arena(), final(self).spec_arena())
                &&& spliced(
                    old(self).row_bytes(),
                    row as int * 24,
                    crate::types::spec_raw_to_bytes(rec),
                    final(self).row_bytes(),
                )
            },
    {
        let rec = match self.arena.append(data) {
            Ok(loc) => RawData { chunk: loc.0, offset: loc.1, size: data.len() },
            Err(e) => {
                return Err(DBError::MemoryLimit);
            },
        };
        let bytes = crate::types::raw_to_bytes(&rec);
        self.write_row_bytes(row, bytes.as_slice());
        Ok(rec)
    }

    /// Copy the bytes of a variable-length value out of the column's
    /// arena, given its row record.
    pub fn var_bytes(&self, rec: &RawData) -> (r: Result<Vec<u8>, DBError>)
        ensures
            r is Ok <==> (rec.chunk < self.spec_arena().spec_chunk_count() && rec.offset + rec.size
                <= self.spec_arena().spec_chunks()[rec.chunk as int].len()),
            r matches Ok(v) ==> v@ == self.spec_arena().spec_chunks()[rec.chunk as int].subrange(
                rec.offset as int,
                rec.offset + rec.size,
            ),
            r is Err ==> r == Err::<Vec<u8>, DBError>(DBError::RowOutOfBounds),
    {
        self.arena.get(rec.chunk, rec.offset, rec.size)
    }

    /// Change the capacity of the column.  Growth preserves every byte of
    /// previously written row data and zero-fills the new space; both the
    /// value buffer and, for nullable attributes, the null bitmap are
    /// resized together.
    pub fn set_capacity(&mut self, rows: RowOffset) -> (r: Option<DBError>)
        requires
            old(self).wf_col(),
            rows * old(self).spec_attr().dtype.spec_size_of() <= usize::MAX,
        ensures
            r is None,
            final(self).wf_col(),
            final(self).spec_attr() == old(self).spec_attr(),
            final(self).spec_capacity() == rows,
            final(self).spec_arena() == old(self).spec_arena(),
            regrown(old(self).row_bytes(), final(self).row_bytes()),
            final(self).row_bytes().len() == rows * old(self).spec_attr().dtype.spec_size_of(),
            regrown(old(self).null_bytes(), final(self).null_bytes()),
    {
        let w = self.attr.dtype.size_of();
        let new_size = rows * w;
        let status = self.allocator.resize(&mut self.raw, new_size);
        proof {
            assert(status is None);
            let wi = w as int;
            assert(new_size as int / wi == rows && new_size as int % wi == 0) by (nonlinear_arith)
                requires
                    wi >= 1,
                    new_size == rows * wi,
            ;
        }
        if self.attr.nullable {
            let nulls_status = self.allocator.resize(&mut self.raw_nulls, rows);
            proof {
                assert(nulls_status is None);
            }
        }
        None
    }
}

impl RefColumn for Column {
    open spec fn wf(&self) -> bool {
        self.wf_col()
    }

    open spec fn spec_capacity(&self) -> nat {
        self.row_bytes().len() / self.spec_attr().dtype.spec_size_of()
    }

    open spec fn row_window(&self, i: int) -> Seq<u8> {
        let w = self.spec_attr().dtype.spec_size_of() as int;
        self.row_bytes().subrange(i * w, i * w + w)
    }

    proof fn storage_coherent(&self) {
        let w = self.spec_attr().dtype.spec_size_of() as int;
        let len = self.row_bytes().len() as int;
        assert(len == (len / w) * w) by (nonlinear_arith)
            requires
                w >= 1,
                len >= 0,
                len % w == 0,
        ;
    }

    closed spec fn spec_attr(&self) -> Attribute {
        self.attr
    }

    closed spec fn row_bytes(&self) -> Seq<u8> {
        self.raw.spec_bytes()
    }

    closed spec fn null_bytes(&self) -> Seq<u8> {
        self.raw_nulls.spec_bytes()
    }

    fn attribute(&self) -> (a: &Attribute) {
        &self.attr
    }

    fn capacity(&self) -> (c: usize) {
        let w = self.attr.dtype.size_of();
        self.raw.len() / w
    }

    fn rows_raw_slice(&self) -> (s: &[u8]) {
        match &self.raw.data {
            Some(v) => v.as_slice(),
            None => vstd::pervasive::unreached(),
        }
    }

    fn nulls_raw_slice(&self) -> (s: &[u8]) {
        match &self.raw_nulls.data {
            Some(v) => v.as_slice(),
            None => vstd::pervasive::unreached(),
        }
    }
}

/// Typed data column that references a row range of another column.
pub struct AliasColumn<'parent> {
    attr: Attribute,
    raw_nulls: &'parent [u8],
    raw: &'parent [u8],
}

impl<'parent> RefColumn for AliasColumn<'parent> {
    open spec fn wf(&self) -> bool {
        &&& self.row_bytes().len() % self.spec_attr().dtype.spec_size_of() == 0
        &&& self.null_bytes().len() == if self.spec_attr().nullable {
            self.spec_capacity()
        } else {
            0
        }
    }

    open spec fn spec_capacity(&self) -> nat {
        self.row_bytes().len() / self.spec_attr().dtype.spec_size_of()
    }

    open spec fn row_window(&self, i: int) -> Seq<u8> {
        let w = self.spec_attr().dtype.spec_size_of() as int;
        self.row_bytes().subrange(i * w, i * w + w)
    }

    proof fn storage_coherent(&self) {
        let w = self.spec_attr().dtype.spec_size_of() as int;
        let len = self.row_bytes().len() as int;
        assert(len == (len / w) * w) by (nonlinear_arith)
            requires
                w >= 1,
                len >= 0,
                len % w == 0,
        ;
    }

    closed spec fn spec_attr(&self) -> Attribute {
        self.attr
    }

    closed spec fn row_bytes(&self) -> Seq<u8> {
        self.raw@
    }

    closed spec fn null_bytes(&self) -> Seq<u8> {
        self.raw_nulls@
    }

    fn attribute(&self) -> (a: &Attribute) {
        &self.attr
    }

    fn capacity(&self) -> (c: usize) {
        let w = self.attr.dtype.size_of();
        self.raw.len() / w
    }

    fn rows_raw_slice(&self) -> (s: &[u8]) {
        self.raw
    }

    fn nulls_raw_slice(&self) -> (s: &[u8]) {
        self.raw_nulls
    }
}

impl<'parent> AliasColumn<'parent> {
    /// The same storage window, published under another attribute of the
    /// same type and nullability.
    pub fn with_attribute(self, attr: Attribute) -> (r: AliasColumn<'parent>)
        requires
            attr.dtype == self.spec_attr().dtype,
            attr.nullable == self.spec_attr().nullable,
        ensures
            r.spec_attr() == attr,
            r.row_bytes() == self.row_bytes(),
            r.null_bytes() == self.null_bytes(),
            self.wf() ==> r.wf(),
    {
        AliasColumn { attr, raw_nulls: self.raw_nulls, raw: self.raw }
    }
}

impl<'parent> Clone for AliasColumn<'parent> {
    fn clone(&self) -> (r: AliasColumn<'parent>)
        ensures
            r.spec_attr() == self.spec_attr(),
            r.row_bytes() == self.row_bytes(),
            r.null_bytes() == self.null_bytes(),
    {
        AliasColumn { attr: self.attr.clone(), raw_nulls: self.raw_nulls, raw: self.raw }
    }
}

/// The `(offset, rows)` pair described by an optional row range, the
/// default being the whole of `whole` rows.
pub open spec fn spec_range_of(range: Option<RowRange>, whole: nat) -> (int, int) {
    match range {
        None => (0, whole as int),
        Some(r) => (r.offset as int, r.rows as int),
    }
}

/// Create a read-only alias of a row range of a column.
///
/// If no range is given, the whole source column is aliased.  Fails with
/// `RowOutOfBounds`, producing no alias, exactly when the range reaches
/// past the source's capacity.
pub fn alias_column<'a, C: RefColumn>(src: &'a C, range: Option<RowRange>) -> (r: Result<
    AliasColumn<'a>,
    DBError,
>)
    requires
        src.wf(),
    ensures
        ({
            let (off, rows) = spec_range_of(range, src.spec_capacity());
            &&& (off + rows > src.spec_capacity() <==> r is Err)
            &&& r is Err ==> r == Err::<AliasColumn<'a>, DBError>(DBError::RowOutOfBounds)
            &&& r matches Ok(a) ==> {
                let w = src.spec_attr().dtype.spec_size_of() as int;
                &&& a.wf()
                &&& a.spec_attr() == src.spec_attr()
                &&& a.spec_capacity() == rows
                &&& a.row_bytes() == src.row_bytes().subrange(off * w, (off + rows) * w)
                &&& a.null_bytes() == if src.spec_attr().nullable {
                    src.null_bytes().subrange(off, off + rows)
                } else {
                    Seq::<u8>::empty()
                }
            }
        }),
{
    let cap = src.capacity();
    let (offset, rows) = match range {
        None => (0usize, cap),
        Some(r) => (r.offset, r.rows),
    };
    if rows > cap || offset > cap - rows {
        return Err(DBError::RowOutOfBounds);
    }
    let w = src.attribute().dtype.size_of();
    let raw = src.rows_raw_slice();
    let raw_len = raw.len();
    proof {
        src.storage_coherent();
        let wi = w as int;
        let capi = cap as int;
        assert((offset + rows) * wi <= capi * wi && offset as int * wi + rows as int * wi == (offset
            + rows) * wi && rows as int * wi <= capi * wi && offset as int * wi >= 0)
            by (nonlinear_arith)
            requires
                wi >= 1,
                0 <= offset as int + rows <= capi,
        ;
        assert(raw@.len() == capi * wi);
    }
    let start = offset * w;
    let len = rows * w;
    let col = &raw[start..start + len];
    let nraw = src.nulls_raw_slice();
    let nulls = if src.attribute().nullable {
        &nraw[offset..offset + rows]
    } else {
        nraw
    };
    let out = AliasColumn { attr: src.attribute().clone(), raw: col, raw_nulls: nulls };
    proof {
        let wi = w as int;
        assert(out.row_bytes().len() == rows as int * wi);
        assert(rows as int * wi % wi == 0 && rows as int * wi / wi == rows as int)
            by (nonlinear_arith)
            requires
                wi >= 1,
        ;
    }
    Ok(out)
}

/// Decoded snapshot of a column: the value vector and the null vector.
pub struct ColumnRows<T: ValueInfo> {
    /// One decoded value per row slot.
    pub values: Vec<T::Store>,
    /// One marker byte per row slot (non-zero = null); empty when the
    /// attribute is not nullable.
    pub nulls: Vec<u8>,
}

/// Decode a column's rows under the type token `T`, erroring with an
/// `AttributeType` condition if `T` does not match the column's runtime
/// type tag.
///
/// The returned vectors are copies: the decoded values and the null
/// markers of every row slot of the column.
pub fn column_row_data<T: ValueInfo, C: RefColumn>(col: &C) -> (r: Result<ColumnRows<T>, DBError>)
    requires
        col.wf(),
    ensures
        r is Ok <==> col.spec_attr().dtype == T::spec_dtype(),
        r matches Ok(rows) ==> {
            &&& rows.values@.len() == col.spec_capacity()
            &&& forall|i: int|
                0 <= i < col.spec_capacity() ==> rows.values@[i] == T::spec_decode(
                    col.row_window(i),
                )
            &&& rows.nulls@ == col.null_bytes()
        },
        r matches Err(e) ==> (e matches DBError::AttributeType(s) && s@ == col.spec_attr().name@),
{
    let attr = col.attribute();
    if !(attr.dtype == T::dtype()) {
        return Err(DBError::AttributeType(attr.name.clone()));
    }
    let cap = col.capacity();
    let w = attr.dtype.size_of();
    let raw = col.rows_raw_slice();
    let raw_len = raw.len();
    proof {
        col.storage_coherent();
        assert(raw@.len() == cap as int * w as int);
    }
    let mut values: Vec<T::Store> = Vec::new();
    let mut i: usize = 0;
    while i < cap
        invariant
            i <= cap,
            w == T::spec_dtype().spec_size_of(),
            col.wf(),
            col.spec_attr().dtype == T::spec_dtype(),
            cap == col.spec_capacity(),
            raw@ == col.row_bytes(),
            raw@.len() == raw_len,
            raw@.len() == cap as int * w as int,
            values@.len() == i,
            forall|k: int| 0 <= k < i ==> values@[k] == T::spec_decode(col.row_window(k)),
        decreases cap - i,
    {
        proof {
            col.storage_coherent();
            let wi = w as int;
            assert(i as int * wi + wi <= cap as int * wi && i as int * wi >= 0)
                by (nonlinear_arith)
                requires
                    wi >= 1,
                    0 <= i < cap,
            ;
            assert(i as int * wi + wi <= raw_len);
        }
        let start = i * w;
        let window = &raw[start..start + w];
        proof {
            assert(window@ =~= col.row_window(i as int));
        }
        values.push(T::decode(window));
        i = i + 1;
    }
    let nulls = vstd::slice::slice_to_vec(col.nulls_raw_slice());
    Ok(ColumnRows { values, nulls })
}

/// A read-only view into data conforming to a pre-defined schema.  The
/// view may be backed by a container that owns its data, or by one that
/// borrows or aliases somebody else's data.
pub trait DataView {
    /// The column reference type this view hands out.
    type Col: RefColumn;

    spec fn wf(&self) -> bool;

    /// The view's schema, as a sequence of attributes.
    spec fn spec_schema(&self) -> Seq<Attribute>;

    /// The view's logical row count.
    spec fn spec_rows(&self) -> nat;

    /// The row storage bytes of column `i`.
    spec fn col_row_bytes(&self, i: int) -> Seq<u8>;

    /// The null bitmap bytes of column `i`.
    spec fn col_null_bytes(&self, i: int) -> Seq<u8>;

    /// Every implementor's well-formedness entails that the logical row
    /// count fits within every column's storage.
    proof fn view_coherent(&self)
        requires
            self.wf(),
        ensures
            forall|i: int|
                0 <= i < self.spec_schema().len() ==> self.spec_rows()
                    * self.spec_schema()[i].dtype.spec_size_of() <= (
                #[trigger] self.col_row_bytes(i)).len(),
    ;

    fn schema(&self) -> (s: &Schema)
        requires
            self.wf(),
        ensures
            s.spec_attrs() == self.spec_schema(),
    ;

    fn column(&self, pos: usize) -> (c: Option<&Self::Col>)
        requires
            self.wf(),
        ensures
            pos < self.spec_schema().len() ==> (c matches Some(col) && {
                &&& col.wf()
                &&& col.spec_attr() == self.spec_schema()[pos as int]
                &&& col.row_bytes() == self.col_row_bytes(pos as int)
                &&& col.null_bytes() == self.col_null_bytes(pos as int)
            }),
            pos >= self.spec_schema().len() ==> c is None,
    ;

    /// Number of rows.
    fn rows(&self) -> (r: RowOffset)
        requires
            self.wf(),
        ensures
            r == self.spec_rows(),
    ;
}

/// Row capacity of column `i` of a view.
pub open spec fn view_col_capacity<V: DataView>(src: &V, i: int) -> nat {
    src.col_row_bytes(i).len() / src.spec_schema()[i].dtype.spec_size_of()
}

/// `a` is the alias of column `i` of `src` described by `range` (the
/// whole column when `range` is `None`).
pub open spec fn aliased_from<'a, V: DataView>(
    src: &V,
    a: AliasColumn<'a>,
    i: int,
    range: Option<RowRange>,
) -> bool {
    let (off, rows) = spec_range_of(range, view_col_capacity(src, i));
    let w = src.spec_schema()[i].dtype.spec_size_of() as int;
    &&& a.wf()
    &&& a.spec_attr() == src.spec_schema()[i]
    &&& a.spec_capacity() == rows
    &&& a.row_bytes() == src.col_row_bytes(i).subrange(off * w, (off + rows) * w)
    &&& a.null_bytes() == if src.spec_schema()[i].nullable {
        src.col_null_bytes(i).subrange(off, off + rows)
    } else {
        Seq::<u8>::empty()
    }
}

/// Take a view and create a vector of column aliases, one per schema
/// attribute, each restricted to `range` (or whole, when `None`).
pub fn alias_columns<'a, V: DataView>(src: &'a V, range: Option<RowRange>) -> (r: Result<
    Vec<AliasColumn<'a>>,
    DBError,
>)
    requires
        src.wf(),
    ensures
        r matches Ok(cols) ==> {
            &&& cols@.len() == src.spec_schema().len()
            &&& forall|i: int| 0 <= i < cols@.len() ==> aliased_from(src, #[trigger] cols@[i], i, range)
        },
        r is Err ==> r == Err::<Vec<AliasColumn<'a>>, DBError>(DBError::RowOutOfBounds)
            && (range matches Some(rr) && exists|i: int|
            0 <= i < src.spec_schema().len() && rr.offset + rr.rows > view_col_capacity(src, i)),
        range is None ==> r is Ok,
        (range matches Some(rr) && forall|i: int|
            0 <= i < src.spec_schema().len() ==> rr.offset + rr.rows <= view_col_capacity(src, i))
            ==> r is Ok,
{
    let count = src.schema().count();
    let mut out: Vec<AliasColumn<'a>> = Vec::new();
    let mut pos: usize = 0;
    while pos < count
        invariant
            src.wf(),
            count == src.spec_schema().len(),
            pos <= count,
            out@.len() == pos,
            forall|i: int| 0 <= i < pos ==> aliased_from(src, #[trigger] out@[i], i, range),
        decreases count - pos,
    {
        let col = match src.column(pos) {
            Some(c) => c,
            None => vstd::pervasive::unreached(),
        };
        proof {
            col.storage_coherent();
            let w = src.spec_schema()[pos as int].dtype.spec_size_of() as int;
            let len = src.col_row_bytes(pos as int).len() as int;
            assert(len / w == col.spec_capacity()) by (nonlinear_arith)
                requires
                    w >= 1,
                    len == col.spec_capacity() * w,
            ;
            assert(view_col_capacity(src, pos as int) == col.spec_capacity());
        }
        match alias_column(col, range) {
            Ok(a) => {
                out.push(a);
            },
            Err(e) => {
                return Err(e);
            },
        }
        pos = pos + 1;
    }
    Ok(out)
}

/// An implementation of a view that does not own the data but aliases it.
pub struct RefView<'a> {
    schema: Schema,
    columns: Vec<AliasColumn<'a>>,
    rows: RowOffset,
}

impl<'a> RefView<'a> {
    pub closed spec fn spec_columns(&self) -> Seq<AliasColumn<'a>> {
        self.columns@
    }

    pub fn new(schema: Schema, columns: Vec<AliasColumn<'a>>, rows: RowOffset) -> (v: RefView<'a>)
        ensures
            v.spec_schema() == schema.spec_attrs(),
            v.spec_columns() == columns@,
            v.spec_rows() == rows,
    {
        RefView { schema, columns, rows }
    }
}

impl<'a> DataView for RefView<'a> {
    type Col = AliasColumn<'a>;

    open spec fn wf(&self) -> bool {
        &&& self.spec_columns().len() == self.spec_schema().len()
        &&& forall|i: int|
            0 <= i < self.spec_columns().len() ==> {
                &&& (#[trigger] self.spec_columns()[i]).wf()
                &&& self.spec_columns()[i].spec_attr() == self.spec_schema()[i]
                &&& self.spec_rows() <= self.spec_columns()[i].spec_capacity()
            }
    }

    closed spec fn spec_schema(&self) -> Seq<Attribute> {
        self.schema.spec_attrs()
    }

    closed spec fn spec_rows(&self) -> nat {
        self.rows as nat
    }

    open spec fn col_row_bytes(&self, i: int) -> Seq<u8> {
        self.spec_columns()[i].row_bytes()
    }

    open spec fn col_null_bytes(&self, i: int) -> Seq<u8> {
        self.spec_columns()[i].null_bytes()
    }

    proof fn view_coherent(&self) {
        assert forall|i: int| 0 <= i < self.spec_schema().len() implies self.spec_rows()
            * self.spec_schema()[i].dtype.spec_size_of() <= (
        #[trigger] self.col_row_bytes(i)).len() by {
            let col = self.spec_columns()[i];
            col.storage_coherent();
            let w = self.spec_schema()[i].dtype.spec_size_of() as int;
            assert(self.spec_rows() * w <= col.spec_capacity() * w) by (nonlinear_arith)
                requires
                    w >= 1,
                    self.spec_rows() <= col.spec_capacity(),
            ;
        }
    }

    fn schema(&self) -> (s: &Schema) {
        &self.schema
    }

    fn column(&self, pos: usize) -> (c: Option<&AliasColumn<'a>>) {
        if pos < self.columns.len() {
            Some(&self.columns[pos])
        } else {
            None
        }
    }

    fn rows(&self) -> (r: RowOffset) {
        self.rows
    }
}

/// Create a window into another view: a borrowed view whose row count is
/// the requested range (or the full source when no range is given).
///
/// Fails with `RowOutOfBounds`, producing no view, exactly when the
/// range reaches past the source's row count.
pub fn window_alias<'a, V: DataView>(src: &'a V, range: Option<RowRange>) -> (r: Result<
    RefView<'a>,
    DBError,
>)
    requires
        src.wf(),
    ensures
        ({
            let (off, rows) = spec_range_of(range, src.spec_rows());
            &&& (off + rows > src.spec_rows() <==> r is Err)
            &&& r is Err ==> r == Err::<RefView<'a>, DBError>(DBError::RowOutOfBounds)
            &&& r matches Ok(v) ==> {
                &&& v.wf()
                &&& v.spec_schema() == src.spec_schema()
                &&& v.spec_rows() == rows
                &&& v.spec_columns().len() == src.spec_schema().len()
                &&& forall|i: int|
                    0 <= i < v.spec_columns().len() ==> aliased_from(
                        src,
                        #[trigger] v.spec_columns()[i],
                        i,
                        range,
                    )
            }
        }),
{
    let src_rows = src.rows();
    let (offset, rows) = match range {
        None => (0usize, src_rows),
        Some(r) => (r.offset, r.rows),
    };
    if rows > src_rows || offset > src_rows - rows {
        return Err(DBError::RowOutOfBounds);
    }
    proof {
        src.view_coherent();
        assert forall|i: int| 0 <= i < src.spec_schema().len() implies offset + rows
            <= view_col_capacity(src, i) by {
            let w = src.spec_schema()[i].dtype.spec_size_of() as int;
            let len = src.col_row_bytes(i).len() as int;
            assert(src.spec_rows() * w <= len);
            assert(src.spec_rows() <= len / w) by (nonlinear_arith)
                requires
                    w >= 1,
                    src.spec_rows() * w <= len,
            ;
        }
    }
    let schema = src.schema().clone();
    let columns = match alias_columns(src, range) {
        Ok(cols) => cols,
        Err(e) => vstd::pervasive::unreached(),
    };
    let out = RefView { schema, columns, rows };
    proof {
        assert forall|i: int| 0 <= i < out.spec_columns().len() implies {
            &&& (#[trigger] out.spec_columns()[i]).wf()
            &&& out.spec_columns()[i].spec_attr() == out.spec_schema()[i]
            &&& out.spec_rows() <= out.spec_columns()[i].spec_capacity()
        } by {
            assert(aliased_from(src, out.spec_columns()[i], i, range));
        }
    }
    Ok(out)
}

/// `post` is `pre` regrown to capacity `cap`: same attribute and arena,
/// every previously written byte preserved, new space zero-filled.
pub open spec fn col_regrown(pre: Column, post: Column, cap: nat) -> bool {
    &&& post.wf_col()
    &&& post.spec_attr() == pre.spec_attr()
    &&& post.spec_capacity() == cap
    &&& post.spec_arena() == pre.spec_arena()
    &&& regrown(pre.row_bytes(), post.row_bytes())
    &&& post.row_bytes().len() == cap * pre.spec_attr().dtype.spec_size_of()
    &&& regrown(pre.null_bytes(), post.null_bytes())
}

/// Every column of `post` carries the same attribute and arena as in
/// `pre`, every previously written byte of row and null storage is
/// preserved, and any new space is zero-filled.
pub open spec fn block_data_preserved(pre: Block, post: Block) -> bool {
    &&& post.spec_columns().len() == pre.spec_columns().len()
    &&& forall|i: int|
        #![trigger pre.spec_columns()[i]]
        #![trigger post.spec_columns()[i]]
        0 <= i < pre.spec_columns().len() ==> {
            &&& regrown(pre.spec_columns()[i].row_bytes(), post.spec_columns()[i].row_bytes())
            &&& regrown(pre.spec_columns()[i].null_bytes(), post.spec_columns()[i].null_bytes())
            &&& post.spec_columns()[i].spec_attr() == pre.spec_columns()[i].spec_attr()
            &&& post.spec_columns()[i].spec_arena() == pre.spec_columns()[i].spec_arena()
        }
}

/// A container for column data conforming to a pre-defined schema.  The
/// block owns its columns and their data.
pub struct Block {
    allocator: HeapAllocator,
    schema: Schema,
    columns: Vec<Column>,
    rows: RowOffset,
    capacity: RowOffset,
}

impl Block {
    pub closed spec fn spec_columns(&self) -> Seq<Column> {
        self.columns@
    }

    /// Allocated row slots shared by all columns.
    pub closed spec fn spec_cap(&self) -> nat {
        self.capacity as nat
    }

    /// Create a block with one empty column per schema attribute, in
    /// schema order.
    pub fn new(alloc: &HeapAllocator, schema: &Schema) -> (b: Block)
        ensures
            b.wf(),
            b.spec_schema() == schema.spec_attrs(),
            b.spec_rows() == 0,
            b.spec_cap() == 0,
            forall|i: int|
                0 <= i < b.spec_columns().len() ==> (#[trigger] b.spec_columns()[i]).row_bytes().len()
                    == 0 && b.spec_columns()[i].spec_arena().spec_chunk_count() == 0
                    && b.spec_columns()[i].spec_arena().spec_min() == ARENA_MIN_SIZE
                    && b.spec_columns()[i].spec_arena().spec_max() == ARENA_MAX_SIZE,
    {
        let cloned = schema.clone();
        let count = cloned.count();
        let mut columns: Vec<Column> = Vec::new();
        let mut i: usize = 0;
        while i < count
            invariant
                count == cloned.spec_count(),
                cloned.spec_attrs() == schema.spec_attrs(),
                i <= count,
                columns@.len() == i,
                forall|j: int|
                    0 <= j < i ==> {
                        &&& (#[trigger] columns@[j]).wf_col()
                        &&& columns@[j].spec_attr() == cloned.spec_attrs()[j]
                        &&& columns@[j].spec_capacity() == 0
                        &&& columns@[j].row_bytes().len() == 0
                        &&& columns@[j].null_bytes().len() == 0
                        &&& columns@[j].spec_arena().spec_chunk_count() == 0
                        &&& columns@[j].spec_arena().spec_min() == ARENA_MIN_SIZE
                        &&& columns@[j].spec_arena().spec_max() == ARENA_MAX_SIZE
                    },
            decreases count - i,
        {
            let attr = match cloned.get(i) {
                Ok(a) => a.clone(),
                Err(_) => vstd::pervasive::unreached(),
            };
            columns.push(Column::new(alloc, attr));
            i = i + 1;
        }
        Block { allocator: *alloc, schema: cloned, columns, rows: 0, capacity: 0 }
    }

    /// Number of rows the block can currently grow to without
    /// re-allocating column data.
    pub fn capacity(&self) -> (c: RowOffset)
        ensures
            c == self.spec_cap(),
    {
        self.capacity
    }

    /// Grow (or shrink) the possible row space of every column.  All
    /// columns are resized before the block's capacity is committed, and
    /// no resize can fail, so a partially-grown state is never
    /// observable; previously written row data is preserved.
    pub fn set_capacity(&mut self, row_cap: RowOffset) -> (r: Option<DBError>)
        requires
            old(self).wf(),
            row_cap * 24 <= usize::MAX,
        ensures
            r is None,
            final(self).wf(),
            final(self).spec_schema() == old(self).spec_schema(),
            final(self).spec_cap() == row_cap,
            final(self).spec_rows() == if old(self).spec_rows() <= row_cap {
                old(self).spec_rows()
            } else {
                row_cap as nat
            },
            final(self).spec_columns().len() == old(self).spec_columns().len(),
            forall|i: int|
                0 <= i < old(self).spec_columns().len() ==> col_regrown(
                    old(self).spec_columns()[i],
                    #[trigger] final(self).spec_columns()[i],
                    row_cap as nat,
                ),
    {
        let count = self.columns.len();
        let mut i: usize = 0;
        while i < count
            invariant
                count == self.columns@.len(),
                self.columns@.len() == old(self).spec_columns().len(),
                i <= count,
                row_cap * 24 <= usize::MAX,
                self.schema == old(self).schema,
                self.rows == old(self).rows,
                self.capacity == old(self).capacity,
                old(self).wf(),
                forall|j: int|
                    i <= j < count ==> #[trigger] self.columns@[j] == old(self).spec_columns()[j],
                forall|j: int|
                    0 <= j < i ==> col_regrown(
                        old(self).spec_columns()[j],
                        #[trigger] self.columns@[j],
                        row_cap as nat,
                    ),
            decreases count - i,
        {
            proof {
                assert(old(self).spec_columns()[i as int].wf_col());
                assert(self.columns@[i as int].wf_col());
                let w = self.columns@[i as int].spec_attr().dtype.spec_size_of() as int;
                assert(w <= 24);
                assert(row_cap * w <= row_cap * 24) by (nonlinear_arith)
                    requires
                        0 <= w <= 24,
                        row_cap >= 0,
                ;
            }
            let col = &mut self.columns[i];
            let status = col.set_capacity(row_cap);
            proof {
                assert(status is None);
            }
            if status.is_some() {
                return status;
            }
            i = i + 1;
        }
        self.capacity = row_cap;
        if row_cap < self.rows {
            self.rows = row_cap;
        }
        None
    }

    /// Add one row, growing capacity by a fixed increment of 1024 when
    /// the block is full.  Returns the offset of the added row.
    pub fn add_row(&mut self) -> (r: Result<RowOffset, DBError>)
        requires
            old(self).wf(),
            old(self).spec_cap() > old(self).spec_rows() || (old(self).spec_cap() + 1024) * 24
                <= usize::MAX,
        ensures
            final(self).wf(),
            final(self).spec_schema() == old(self).spec_schema(),
            r == Ok::<RowOffset, DBError>(old(self).spec_rows() as usize),
            final(self).spec_rows() == old(self).spec_rows() + 1,
            final(self).spec_cap() == if old(self).spec_cap() > old(self).spec_rows() {
                old(self).spec_cap()
            } else {
                old(self).spec_cap() + 1024
            },
            old(self).spec_cap() % 1024 == 0 ==> final(self).spec_cap() % 1024 == 0,
            block_data_preserved(*old(self), *final(self)),
    {
        if self.capacity > self.rows {
            let rowid = self.rows;
            self.rows = self.rows + 1;
            Ok(rowid)
        } else {
            let rowid = self.rows;
            let new_cap = self.capacity + 1024;
            let status = self.set_capacity(new_cap);
            proof {
                assert(status is None);
            }
            if let Some(err) = status {
                Err(err)
            } else {
                self.rows = self.rows + 1;
                Ok(rowid)
            }
        }
    }

    /// Add a batch of `rows` uninitialized rows, growing capacity to the
    /// next multiple of 1024 past the new row count when needed.  Returns
    /// the offset of the first added row.
    pub fn add_rows(&mut self, rows: RowOffset) -> (r: Result<RowOffset, DBError>)
        requires
            old(self).wf(),
            old(self).spec_rows() + rows <= usize::MAX,
            old(self).spec_cap() > old(self).spec_rows() + rows || (old(self).spec_rows() + rows
                + 1024) * 24 <= usize::MAX,
        ensures
            final(self).wf(),
            final(self).spec_schema() == old(self).spec_schema(),
            r == Ok::<RowOffset, DBError>(old(self).spec_rows() as usize),
            final(self).spec_rows() == old(self).spec_rows() + rows,
            final(self).spec_cap() as int == if old(self).spec_cap() > old(self).spec_rows()
                + rows {
                old(self).spec_cap() as int
            } else {
                crate::math::spec_round_up(old(self).spec_rows() + rows, 1024)
            },
            old(self).spec_cap() % 1024 == 0 ==> final(self).spec_cap() % 1024 == 0,
            block_data_preserved(*old(self), *final(self)),
    {
        if self.capacity > self.rows + rows {
            let rowid = self.rows;
            self.rows = self.rows + rows;
            Ok(rowid)
        } else {
            let rowid = self.rows;
            let new_cap = round_up(self.rows + rows, 1024);
            let status = self.set_capacity(new_cap);
            proof {
                assert(status is None);
            }
            if let Some(err) = status {
                Err(err)
            } else {
                self.rows = self.rows + rows;
                Ok(rowid)
            }
        }
    }

    /// Mutable reference to one column and its data.  The caller is
    /// responsible for keeping the column's capacity and attribute
    /// unchanged, as the block's well-formedness depends on them.
    pub fn column_mut(&mut self, pos: usize) -> (r: Option<&mut Column>)
        ensures
            pos >= old(self).spec_columns().len() ==> r is None && *final(self) == *old(self),
            pos < old(self).spec_columns().len() ==> {
                &&& r is Some
                &&& *r.unwrap() == old(self).spec_columns()[pos as int]
                &&& final(self).spec_columns() == old(self).spec_columns().update(
                    pos as int,
                    *final(r.unwrap()),
                )
                &&& final(self).spec_schema() == old(self).spec_schema()
                &&& final(self).spec_rows() == old(self).spec_rows()
                &&& final(self).spec_cap() == old(self).spec_cap()
            },
    {
        if pos < self.columns.len() {
            Some(&mut self.columns[pos])
        } else {
            None
        }
    }
}

impl DataView for Block {
    type Col = Column;

    open spec fn wf(&self) -> bool {
        &&& self.spec_columns().len() == self.spec_schema().len()
        &&& self.spec_rows() <= self.spec_cap()
        &&& self.spec_cap() <= usize::MAX
        &&& forall|i: int|
            0 <= i < self.spec_columns().len() ==> {
                &&& (#[trigger] self.spec_columns()[i]).wf_col()
                &&& self.spec_columns()[i].spec_attr() == self.spec_schema()[i]
                &&& self.spec_columns()[i].spec_capacity() == self.spec_cap()
            }
    }

    closed spec fn spec_schema(&self) -> Seq<Attribute> {
        self.schema.spec_attrs()
    }

    closed spec fn spec_rows(&self) -> nat {
        self.rows as nat
    }

    open spec fn col_row_bytes(&self, i: int) -> Seq<u8> {
        self.spec_columns()[i].row_bytes()
    }

    open spec fn col_null_bytes(&self, i: int) -> Seq<u8> {
        self.spec_columns()[i].null_bytes()
    }

    proof fn view_coherent(&self) {
        assert forall|i: int| 0 <= i < self.spec_schema().len() implies self.spec_rows()
            * self.spec_schema()[i].dtype.spec_size_of() <= (
        #[trigger] self.col_row_bytes(i)).len() by {
            let col = self.spec_columns()[i];
            col.storage_coherent();
            let w = self.spec_schema()[i].dtype.spec_size_of() as int;
            assert(self.spec_rows() * w <= col.spec_capacity() * w) by (nonlinear_arith)
                requires
                    w >= 1,
                    self.spec_rows() <= col.spec_capacity(),
            ;
        }
    }

    fn schema(&self) -> (s: &Schema) {
        &self.schema
    }

    fn column(&self, pos: usize) -> (c: Option<&Column>) {
        if pos < self.columns.len() {
            Some(&self.columns[pos])
        } else {
            None
        }
    }

    fn rows(&self) -> (r: RowOffset) {
        self.rows
    }
}

/// Growing a column preserves every already-stored row value: for any
/// row below the old capacity, the row's byte window after a regrow to a
/// capacity at least as large is the same as before, so every value
/// written before the resize is still readable, unchanged, after it.
pub proof fn lemma_regrow_preserves_row_window(pre: Column, post: Column, cap: nat, row: int)
    requires
        pre.wf_col(),
        col_regrown(pre, post, cap),
        pre.spec_capacity() <= cap,
        0 <= row < pre.spec_capacity(),
    ensures
        post.row_window(row) == pre.row_window(row),
{
    let w = pre.spec_attr().dtype.spec_size_of() as int;
    let pre_len = pre.row_bytes().len() as int;
    let post_len = post.row_bytes().len() as int;
    pre.storage_coherent();
    assert((row + 1) * w <= pre.spec_capacity() * w && row * w >= 0 && pre.spec_capacity() * w
        <= cap * w) by (nonlinear_arith)
        requires
            w >= 1,
            0 <= row < pre.spec_capacity(),
            pre.spec_capacity() <= cap,
    ;
    assert(post.row_window(row) =~= pre.row_window(row));
}

/// Two non-overlapping row ranges of one column cover disjoint byte
/// ranges of its storage: when the first range ends at or before the
/// second begins, the last byte of the first window lies before the
/// first byte of the second, so neither window can observe the other's
/// bytes.
pub proof fn lemma_alias_ranges_disjoint(w: int, off1: int, rows1: int, off2: int, rows2: int)
    requires
        w >= 1,
        0 <= off1,
        0 <= rows1,
        0 <= rows2,
        off1 + rows1 <= off2,
    ensures
        (off1 + rows1) * w <= off2 * w,
{
    assert((off1 + rows1) * w <= off2 * w) by (nonlinear_arith)
        requires
            w >= 1,
            off1 + rows1 <= off2,
    ;
}

} // verus!

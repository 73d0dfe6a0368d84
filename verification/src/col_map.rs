//! Mapping one column onto another, value by value.

use core::marker::PhantomData;
use vstd::prelude::*;

use crate::block::{spliced, Column, RefColumn};
use crate::error::DBError;
use crate::row::RowOffset;
use crate::types::{UInt32, UInt64, ValueInfo};

verus! {

/// A value-level mapping from rows of type token `IT` to rows of type
/// token `OT`, implemented by the callers of [`BoundOneColMapper`].
pub trait OneColMapper<IT: ValueInfo, OT: ValueInfo> {
    /// The mapped value, as a specification-level function.
    spec fn model(&self, v: IT::Store) -> OT::Store;

    /// Map one non-null column value to another value.
    fn map_value(&self, in_val: &IT::Store) -> (r: OT::Store)
        ensures
            r == self.model(*in_val),
    ;
}

/// A splice of `post` over `pre` at window `j` (of width `w`) left every
/// other aligned window unchanged.
proof fn lemma_splice_keeps_window(pre: Seq<u8>, off: int, patch: Seq<u8>, post: Seq<u8>, w: int, j: int)
    requires
        spliced(pre, off, patch, post),
        w >= 1,
        0 <= j * w,
        j * w + w <= off || j * w >= off + patch.len(),
        j * w + w <= pre.len(),
    ensures
        post.subrange(j * w, j * w + w) == pre.subrange(j * w, j * w + w),
{
    assert(post.subrange(j * w, j * w + w) =~= pre.subrange(j * w, j * w + w));
}

/// Typed column-to-column mapper: applies a [`OneColMapper`] to every
/// row slot of an input column, writing the results into an output
/// column of matching capacity.
pub struct BoundOneColMapper<IT: ValueInfo, OT: ValueInfo> {
    _it: PhantomData<IT>,
    _ot: PhantomData<OT>,
}

impl<IT: ValueInfo, OT: ValueInfo> BoundOneColMapper<IT, OT> {
    pub fn new() -> (r: BoundOneColMapper<IT, OT>) {
        BoundOneColMapper { _it: PhantomData, _ot: PhantomData }
    }

    /// What one mapped output row window holds: the encoding of the
    /// mapped input value for a live row, all zeroes for a null row.
    pub open spec fn spec_mapped_window<C: RefColumn, M: OneColMapper<IT, OT>>(
        in_col: &C,
        mapper: &M,
        i: int,
    ) -> Seq<u8> {
        if in_col.spec_attr().nullable && in_col.null_bytes()[i] != 0 {
            Seq::new(OT::spec_dtype().spec_size_of(), |k: int| 0u8)
        } else {
            OT::spec_encode(mapper.model(IT::spec_decode(in_col.row_window(i))))
        }
    }

    /// Map every row slot of `in_col` into `out_col`: a live row's value
    /// is mapped and stored, a null row stays null (when the output is
    /// nullable) and its value window is zeroed.  Errors with an
    /// `AttributeType` condition when either column's runtime tag does
    /// not match its type token.  Returns the number of rows written.
    #[verifier::rlimit(50)]
    pub fn map<C: RefColumn, M: OneColMapper<IT, OT>>(
        &self,
        in_col: &C,
        out_col: &mut Column,
        mapper: &M,
    ) -> (r: Result<RowOffset, DBError>)
        requires
            in_col.wf(),
            old(out_col).wf_col(),
            in_col.spec_capacity() <= old(out_col).spec_capacity(),
        ensures
            final(out_col).wf_col(),
            final(out_col).spec_attr() == old(out_col).spec_attr(),
            final(out_col).spec_capacity() == old(out_col).spec_capacity(),
            final(out_col).spec_arena() == old(out_col).spec_arena(),
            r is Ok <==> (in_col.spec_attr().dtype == IT::spec_dtype() && old(
                out_col,
            ).spec_attr().dtype == OT::spec_dtype()),
            r is Err ==> *final(out_col) == *old(out_col) && (r matches Err(e) && e
                matches DBError::AttributeType(_)),
            r matches Ok(n) ==> {
                &&& n == in_col.spec_capacity()
                &&& forall|i: int|
                    0 <= i < in_col.spec_capacity() ==> #[trigger] final(out_col).row_window(i)
                        == Self::spec_mapped_window(in_col, mapper, i)
                &&& old(out_col).spec_attr().nullable ==> forall|i: int|
                    0 <= i < in_col.spec_capacity() ==> final(out_col).null_bytes()[i] == (
                    if in_col.spec_attr().nullable {
                        in_col.null_bytes()[i]
                    } else {
                        0u8
                    })
            },
    {
        let in_attr = in_col.attribute();
        if !(in_attr.dtype == IT::dtype()) {
            return Err(DBError::AttributeType(in_attr.name.clone()));
        }
        if !(out_col.attribute().dtype == OT::dtype()) {
            return Err(DBError::AttributeType(out_col.attribute().name.clone()));
        }
        let in_nullable = in_attr.nullable;
        let out_nullable = out_col.attribute().nullable;
        let n = in_col.capacity();
        let in_raw = in_col.rows_raw_slice();
        let in_raw_len = in_raw.len();
        let in_nulls = in_col.nulls_raw_slice();
        let w_in = in_attr.dtype.size_of();
        let w_out = OT::dtype().size_of();
        proof {
            in_col.storage_coherent();
            out_col.storage_coherent();
        }
        let mut i: usize = 0;
        while i < n
            invariant
                in_col.wf(),
                out_col.wf_col(),
                i <= n,
                n == in_col.spec_capacity(),
                n <= out_col.spec_capacity(),
                in_nullable == in_col.spec_attr().nullable,
                out_nullable == out_col.spec_attr().nullable,
                in_col.spec_attr().dtype == IT::spec_dtype(),
                out_col.spec_attr().dtype == OT::spec_dtype(),
                w_in == IT::spec_dtype().spec_size_of(),
                w_out == OT::spec_dtype().spec_size_of(),
                in_raw@ == in_col.row_bytes(),
                in_raw@.len() == in_raw_len,
                in_raw@.len() == n as int * w_in as int,
                in_nulls@ == in_col.null_bytes(),
                out_col.spec_attr() == old(out_col).spec_attr(),
                out_col.spec_capacity() == old(out_col).spec_capacity(),
                out_col.spec_arena() == old(out_col).spec_arena(),
                forall|j: int|
                    0 <= j < i ==> #[trigger] out_col.row_window(j) == Self::spec_mapped_window(
                        in_col,
                        mapper,
                        j,
                    ),
                out_nullable ==> forall|j: int|
                    0 <= j < i ==> out_col.null_bytes()[j] == (if in_nullable {
                        in_col.null_bytes()[j]
                    } else {
                        0u8
                    }),
            decreases n - i,
        {
            proof {
                in_col.storage_coherent();
                out_col.storage_coherent();
                let wi = w_in as int;
                assert(i as int * wi + wi <= n as int * wi && i as int * wi >= 0)
                    by (nonlinear_arith)
                    requires
                        wi >= 1,
                        0 <= i < n,
                ;
            }
            let ghost pre = *out_col;
            let is_null_row = if in_nullable {
                in_nulls[i] != 0
            } else {
                false
            };
            let patch: Vec<u8> = if is_null_row {
                crate::allocator::zero_vec(w_out)
            } else {
                let start = i * w_in;
                let window = &in_raw[start..start + w_in];
                proof {
                    assert(window@ =~= in_col.row_window(i as int));
                }
                let v = IT::decode(window);
                let out_v = mapper.map_value(&v);
                OT::encode(&out_v)
            };
            proof {
                assert(patch@ =~= Self::spec_mapped_window(in_col, mapper, i as int));
            }
            out_col.write_row_bytes(i, patch.as_slice());
            if out_nullable {
                let marker: u8 = if is_null_row {
                    in_nulls[i]
                } else {
                    0
                };
                let res = out_col.write_null(i, marker);
                proof {
                    assert(res is Ok);
                }
            }
            proof {
                let wo = w_out as int;
                out_col.storage_coherent();
                pre.storage_coherent();
                assert(i as int * wo + wo <= pre.spec_capacity() * wo && i as int * wo >= 0)
                    by (nonlinear_arith)
                    requires
                        wo >= 1,
                        0 <= i < pre.spec_capacity(),
                ;
                assert forall|j: int|
                    0 <= j < i + 1 implies #[trigger] out_col.row_window(j)
                    == Self::spec_mapped_window(in_col, mapper, j) by {
                    out_col.storage_coherent();
                    pre.storage_coherent();
                    if j < i {
                        assert(j * wo + wo <= i as int * wo && j * wo + wo <= pre.spec_capacity()
                            * wo && 0 <= j * wo) by (nonlinear_arith)
                            requires
                                wo >= 1,
                                0 <= j < i,
                                i < n <= pre.spec_capacity(),
                        ;
                        lemma_splice_keeps_window(
                            pre.row_bytes(),
                            i as int * wo,
                            patch@,
                            out_col.row_bytes(),
                            wo,
                            j,
                        );
                        assert(out_col.row_window(j) == out_col.row_bytes().subrange(
                            j * wo,
                            j * wo + wo,
                        ));
                        assert(pre.row_window(j) == pre.row_bytes().subrange(j * wo, j * wo + wo));
                        assert(pre.row_window(j) == Self::spec_mapped_window(in_col, mapper, j));
                        assert(out_col.row_window(j) == Self::spec_mapped_window(in_col, mapper, j));
                    } else {
                        assert(out_col.row_window(j) =~= patch@);
                        assert(patch@ == Self::spec_mapped_window(in_col, mapper, j));
                    }
                }
            }
            i = i + 1;
        }
        Ok(n)
    }
}

/// Widening map from 32-bit to 64-bit unsigned column values.
pub struct WidenUInt32 {}

impl OneColMapper<UInt32, UInt64> for WidenUInt32 {
    open spec fn model(&self, v: u32) -> u64 {
        v as u64
    }

    fn map_value(&self, in_val: &u32) -> u64 {
        *in_val as u64
    }
}

} // verus!

//! Setting column row values from native values.
//!
//! Fixed-width values are encoded into the row window directly;
//! variable-length values (text, byte strings) follow the two-step
//! protocol: their bytes are copied into the column's arena and the row
//! window receives the location record.

use vstd::bytes::*;
use vstd::prelude::*;
use vstd::string::StringSliceAdditionalSpecFns;

use crate::block::{spliced, Column, RefColumn};
use crate::error::DBError;
use crate::row::RowOffset;
use crate::types::{
    spec_bool_to_le_bytes, spec_i32_to_le_bytes, spec_i64_to_le_bytes, spec_raw_to_bytes, RawData,
    Type,
};

verus! {

/// The effect of writing the fixed-width encoding `patch` into row `row`
/// of a column: only that row window changes.
pub open spec fn fixed_row_write(patch: Seq<u8>, pre: Column, post: Column, row: int) -> bool {
    &&& spliced(
        pre.row_bytes(),
        row * pre.spec_attr().dtype.spec_size_of() as int,
        patch,
        post.row_bytes(),
    )
    &&& post.null_bytes() == pre.null_bytes()
    &&& post.spec_arena() == pre.spec_arena()
}

/// The effect of writing a variable-length value with payload `data`
/// into row `row` of a column: the payload is appended to the arena at
/// the arena's next location, every location handed out earlier keeps
/// its bytes, and the row window receives the location record.
pub open spec fn var_row_write(data: Seq<u8>, pre: Column, post: Column, row: int) -> bool {
    let (ci, off) = pre.spec_arena().spec_loc(data.len());
    let rec = RawData { chunk: ci as usize, offset: off as usize, size: data.len() as usize };
    &&& post.null_bytes() == pre.null_bytes()
    &&& ci == post.spec_arena().spec_chunk_count() - 1
    &&& forall|k: int| 0 <= k < data.len() ==> post.spec_arena().byte_at(ci, off + k) == data[k]
    &&& crate::allocator::ChainedArena::preserves(pre.spec_arena(), post.spec_arena())
    &&& spliced(pre.row_bytes(), row * 24, spec_raw_to_bytes(rec), post.row_bytes())
}

/// The error a fixed-width setter of tag `want` reports.
pub open spec fn fixed_reject(want: Type, pre: Column, e: DBError) -> bool {
    &&& pre.spec_attr().dtype != want
    &&& (e matches DBError::AttributeType(s) && s@ == pre.spec_attr().name@)
}

/// The error a variable-length setter of tag `want` and payload `data`
/// reports: a type mismatch, or a payload above the arena's limit.
pub open spec fn var_reject(want: Type, data: Seq<u8>, pre: Column, e: DBError) -> bool {
    if pre.spec_attr().dtype != want {
        e matches DBError::AttributeType(s) && s@ == pre.spec_attr().name@
    } else {
        data.len() > pre.spec_arena().spec_max() && e == DBError::MemoryLimit
    }
}

/// Setting column row values from native types.  Deals correctly with
/// types that need to store their payload in the column's arena.
pub trait ValueSetter {
    /// Whether a column in this state accepts the value.
    spec fn accepts(&self, col: Column) -> bool;

    /// The exact effect of a successful write at `row`.
    spec fn row_write(&self, pre: Column, post: Column, row: int) -> bool;

    /// The error reported for a rejected write.
    spec fn reject_error(&self, pre: Column, e: DBError) -> bool;

    fn set_row(&self, col: &mut Column, row: RowOffset) -> (r: Result<(), DBError>)
        requires
            old(col).wf_col(),
            row < old(col).spec_capacity(),
        ensures
            final(col).wf_col(),
            final(col).spec_attr() == old(col).spec_attr(),
            final(col).spec_capacity() == old(col).spec_capacity(),
            r is Ok <==> self.accepts(*old(col)),
            r is Ok ==> self.row_write(*old(col), *final(col), row as int),
            r matches Err(e) ==> *final(col) == *old(col) && self.reject_error(*old(col), e),
    ;
}

impl ValueSetter for u32 {
    open spec fn accepts(&self, col: Column) -> bool {
        col.spec_attr().dtype == Type::UINT32
    }

    open spec fn row_write(&self, pre: Column, post: Column, row: int) -> bool {
        fixed_row_write(spec_u32_to_le_bytes(*self), pre, post, row)
    }

    open spec fn reject_error(&self, pre: Column, e: DBError) -> bool {
        fixed_reject(Type::UINT32, pre, e)
    }

    fn set_row(&self, col: &mut Column, row: RowOffset) -> (r: Result<(), DBError>) {
        if !(col.attribute().dtype == Type::UINT32) {
            return Err(DBError::AttributeType(col.attribute().name.clone()));
        }
        let bytes = u32_to_le_bytes(*self);
        col.write_row_bytes(row, bytes.as_slice());
        Ok(())
    }
}

impl ValueSetter for u64 {
    open spec fn accepts(&self, col: Column) -> bool {
        col.spec_attr().dtype == Type::UINT64
    }

    open spec fn row_write(&self, pre: Column, post: Column, row: int) -> bool {
        fixed_row_write(spec_u64_to_le_bytes(*self), pre, post, row)
    }

    open spec fn reject_error(&self, pre: Column, e: DBError) -> bool {
        fixed_reject(Type::UINT64, pre, e)
    }

    fn set_row(&self, col: &mut Column, row: RowOffset) -> (r: Result<(), DBError>) {
        if !(col.attribute().dtype == Type::UINT64) {
            return Err(DBError::AttributeType(col.attribute().name.clone()));
        }
        let bytes = u64_to_le_bytes(*self);
        col.write_row_bytes(row, bytes.as_slice());
        Ok(())
    }
}

impl ValueSetter for i32 {
    open spec fn accepts(&self, col: Column) -> bool {
        col.spec_attr().dtype == Type::INT32
    }

    open spec fn row_write(&self, pre: Column, post: Column, row: int) -> bool {
        fixed_row_write(spec_i32_to_le_bytes(*self), pre, post, row)
    }

    open spec fn reject_error(&self, pre: Column, e: DBError) -> bool {
        fixed_reject(Type::INT32, pre, e)
    }

    fn set_row(&self, col: &mut Column, row: RowOffset) -> (r: Result<(), DBError>) {
        if !(col.attribute().dtype == Type::INT32) {
            return Err(DBError::AttributeType(col.attribute().name.clone()));
        }
        let bytes = crate::types::i32_to_le_bytes(*self);
        col.write_row_bytes(row, bytes.as_slice());
        Ok(())
    }
}

impl ValueSetter for i64 {
    open spec fn accepts(&self, col: Column) -> bool {
        col.spec_attr().dtype == Type::INT64
    }

    open spec fn row_write(&self, pre: Column, post: Column, row: int) -> bool {
        fixed_row_write(spec_i64_to_le_bytes(*self), pre, post, row)
    }

    open spec fn reject_error(&self, pre: Column, e: DBError) -> bool {
        fixed_reject(Type::INT64, pre, e)
    }

    fn set_row(&self, col: &mut Column, row: RowOffset) -> (r: Result<(), DBError>) {
        if !(col.attribute().dtype == Type::INT64) {
            return Err(DBError::AttributeType(col.attribute().name.clone()));
        }
        let bytes = crate::types::i64_to_le_bytes(*self);
        col.write_row_bytes(row, bytes.as_slice());
        Ok(())
    }
}

impl ValueSetter for bool {
    open spec fn accepts(&self, col: Column) -> bool {
        col.spec_attr().dtype == Type::BOOLEAN
    }

    open spec fn row_write(&self, pre: Column, post: Column, row: int) -> bool {
        fixed_row_write(spec_bool_to_le_bytes(*self), pre, post, row)
    }

    open spec fn reject_error(&self, pre: Column, e: DBError) -> bool {
        fixed_reject(Type::BOOLEAN, pre, e)
    }

    fn set_row(&self, col: &mut Column, row: RowOffset) -> (r: Result<(), DBError>) {
        if !(col.attribute().dtype == Type::BOOLEAN) {
            return Err(DBError::AttributeType(col.attribute().name.clone()));
        }
        let bytes = crate::types::bool_to_le_bytes(*self);
        col.write_row_bytes(row, bytes.as_slice());
        Ok(())
    }
}

impl<'b> ValueSetter for &'b str {
    open spec fn accepts(&self, col: Column) -> bool {
        col.spec_attr().dtype == Type::TEXT && self.spec_bytes().len() <= col.spec_arena().spec_max()
    }

    open spec fn row_write(&self, pre: Column, post: Column, row: int) -> bool {
        var_row_write(self.spec_bytes(), pre, post, row)
    }

    open spec fn reject_error(&self, pre: Column, e: DBError) -> bool {
        var_reject(Type::TEXT, self.spec_bytes(), pre, e)
    }

    fn set_row(&self, col: &mut Column, row: RowOffset) -> (r: Result<(), DBError>) {
        if !(col.attribute().dtype == Type::TEXT) {
            return Err(DBError::AttributeType(col.attribute().name.clone()));
        }
        let data = self.as_bytes();
        match col.write_var(row, data) {
            Ok(_) => Ok(()),
            Err(e) => Err(e),
        }
    }
}

impl ValueSetter for String {
    open spec fn accepts(&self, col: Column) -> bool {
        col.spec_attr().dtype == Type::TEXT && vstd::utf8::encode_utf8(self@).len()
            <= col.spec_arena().spec_max()
    }

    open spec fn row_write(&self, pre: Column, post: Column, row: int) -> bool {
        var_row_write(vstd::utf8::encode_utf8(self@), pre, post, row)
    }

    open spec fn reject_error(&self, pre: Column, e: DBError) -> bool {
        var_reject(Type::TEXT, vstd::utf8::encode_utf8(self@), pre, e)
    }

    fn set_row(&self, col: &mut Column, row: RowOffset) -> (r: Result<(), DBError>) {
        self.as_str().set_row(col, row)
    }
}

impl<'b> ValueSetter for &'b [u8] {
    open spec fn accepts(&self, col: Column) -> bool {
        col.spec_attr().dtype == Type::BLOB && self@.len() <= col.spec_arena().spec_max()
    }

    open spec fn row_write(&self, pre: Column, post: Column, row: int) -> bool {
        var_row_write(self@, pre, post, row)
    }

    open spec fn reject_error(&self, pre: Column, e: DBError) -> bool {
        var_reject(Type::BLOB, self@, pre, e)
    }

    fn set_row(&self, col: &mut Column, row: RowOffset) -> (r: Result<(), DBError>) {
        if !(col.attribute().dtype == Type::BLOB) {
            return Err(DBError::AttributeType(col.attribute().name.clone()));
        }
        match col.write_var(row, self) {
            Ok(_) => Ok(()),
            Err(e) => Err(e),
        }
    }
}

/// An optional value: `None` marks the row as null, `Some` stores the
/// contained value.
impl<T: ValueSetter> ValueSetter for Option<T> {
    open spec fn accepts(&self, col: Column) -> bool {
        match self {
            None => col.spec_attr().nullable,
            Some(v) => v.accepts(col),
        }
    }

    open spec fn row_write(&self, pre: Column, post: Column, row: int) -> bool {
        match self {
            None => {
                &&& spliced(pre.null_bytes(), row, seq![1u8], post.null_bytes())
                &&& post.row_bytes() == pre.row_bytes()
                &&& post.spec_arena() == pre.spec_arena()
            },
            Some(v) => v.row_write(pre, post, row),
        }
    }

    open spec fn reject_error(&self, pre: Column, e: DBError) -> bool {
        match self {
            None => !pre.spec_attr().nullable && (e matches DBError::AttributeNullability(s) && s@
                == pre.spec_attr().name@),
            Some(v) => v.reject_error(pre, e),
        }
    }

    fn set_row(&self, col: &mut Column, row: RowOffset) -> (r: Result<(), DBError>) {
        match self {
            None => {
                match col.write_null(row, 1) {
                    Ok(_) => Ok(()),
                    Err(e) => Err(e),
                }
            },
            Some(v) => v.set_row(col, row),
        }
    }
}

} // verus!

//! Execution errors of the storage engine.

use vstd::prelude::*;

verus! {

/// Error taxonomy shared by every fallible operation of the engine.
#[derive(Debug)]
pub enum DBError {
    Unknown,
    /// Unknown type (parsing external type information).
    UnknownType(String),
    /// Referencing a missing schema attribute (name or position).
    AttributeMissing(String),
    /// Mismatched expectation about an attribute's nullability.
    AttributeNullability(String),
    /// Mismatched expectation about an attribute's type.
    AttributeType(String),
    /// Duplicate attribute in a result schema.
    AttributeDuplicate(String),
    /// A row range falls outside its source's capacity or row count.
    RowOutOfBounds,
    /// Unknown memory allocation error.
    Memory,
    /// Memory allocation limit reached (via policy).
    MemoryLimit,
}

impl DBError {
    /// Error for a null access on a column that is not nullable.
    pub fn make_column_not_nullable(name: String) -> (r: DBError)
        ensures
            r == DBError::AttributeNullability(name),
    {
        DBError::AttributeNullability(name)
    }

    /// Error for addressing a column position outside the schema.
    pub fn make_column_unknown_pos(pos: usize) -> (r: DBError)
        ensures
            r matches DBError::AttributeMissing(s) && s@ == "(pos: "@ + crate::math::spec_decimal(
                pos as nat,
            ) + ")"@,
    {
        DBError::AttributeMissing(
            String::from_str("(pos: ").concat(crate::math::decimal_string(pos).as_str()).concat(
                ")",
            ),
        )
    }
}

} // verus!

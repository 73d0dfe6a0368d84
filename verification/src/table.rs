//! Row-by-row construction and modification of a [`Block`].

use vstd::prelude::*;

use crate::allocator::HeapAllocator;
use crate::block::{block_data_preserved, spliced, Block, Column, DataView, RefColumn};
use crate::copy_value::ValueSetter;
use crate::error::DBError;
use crate::row::RowOffset;
use crate::schema::Schema;

verus! {

/// Abstraction on top of a [`Block`] for easy construction and
/// modification of the contained data.
///
/// The table owns its block until [`Table::take`] is called; afterwards
/// the operations that need the block are no longer available (their
/// contracts require the block to be present).
pub struct Table {
    block: Option<Block>,
}

impl Table {
    pub closed spec fn spec_block(&self) -> Option<Block> {
        self.block
    }

    pub open spec fn has_block(&self) -> bool {
        self.spec_block() is Some
    }

    /// Create a table over a fresh block, optionally with an initial
    /// capacity.
    pub fn new(alloc: &HeapAllocator, schema: &Schema, capacity: Option<RowOffset>) -> (t: Table)
        requires
            capacity matches Some(c) ==> c * 24 <= usize::MAX,
        ensures
            t.wf(),
            t.spec_schema() == schema.spec_attrs(),
            t.spec_rows() == 0,
            t.spec_block().unwrap().spec_cap() == (match capacity {
                Some(c) => c as nat,
                None => 0,
            }),
    {
        let mut b = Block::new(alloc, schema);
        if let Some(c) = capacity {
            let status = b.set_capacity(c);
            proof {
                assert(status is None);
            }
        }
        Table { block: Some(b) }
    }

    /// Add a single row.
    pub fn add_row(&mut self) -> (r: Result<RowOffset, DBError>)
        requires
            old(self).wf(),
            old(self).spec_block().unwrap().spec_cap() > old(self).spec_rows() || (old(
                self,
            ).spec_block().unwrap().spec_cap() + 1024) * 24 <= usize::MAX,
        ensures
            final(self).wf(),
            final(self).spec_schema() == old(self).spec_schema(),
            r == Ok::<RowOffset, DBError>(old(self).spec_rows() as usize),
            final(self).spec_rows() == old(self).spec_rows() + 1,
            final(self).spec_block().unwrap().spec_cap() == ({
                let b = old(self).spec_block().unwrap();
                if b.spec_cap() > b.spec_rows() {
                    b.spec_cap()
                } else {
                    b.spec_cap() + 1024
                }
            }),
            block_data_preserved(
                old(self).spec_block().unwrap(),
                final(self).spec_block().unwrap(),
            ),
    {
        match &mut self.block {
            Some(b) => b.add_row(),
            None => vstd::pervasive::unreached(),
        }
    }

    /// Reference to the contained block.
    pub fn block_ref(&self) -> (b: &Block)
        requires
            self.has_block(),
        ensures
            *b == self.spec_block().unwrap(),
    {
        match &self.block {
            Some(b) => b,
            None => vstd::pervasive::unreached(),
        }
    }

    /// Mutable reference to the contained block.
    pub fn block_ref_mut(&mut self) -> (b: &mut Block)
        requires
            old(self).has_block(),
        ensures
            *b == old(self).spec_block().unwrap(),
            final(self).spec_block() == Some(*final(b)),
    {
        match &mut self.block {
            Some(b) => b,
            None => vstd::pervasive::unreached(),
        }
    }

    /// Take ownership of the contained block.
    ///
    /// This is done when the table is complete and the block is going to
    /// be used elsewhere.
    pub fn take(&mut self) -> (r: Option<Block>)
        ensures
            r == old(self).spec_block(),
            final(self).spec_block() is None,
    {
        self.block.take()
    }

    /// Mutable access to one column of the contained block.  The caller
    /// is responsible for keeping the column's capacity and attribute
    /// unchanged, as the block's well-formedness depends on them.
    pub fn column_mut(&mut self, pos: usize) -> (r: Option<&mut Column>)
        requires
            old(self).has_block(),
        ensures
            ({
                let b = old(self).spec_block().unwrap();
                &&& pos >= b.spec_columns().len() ==> r is None && *final(self) == *old(self)
                &&& pos < b.spec_columns().len() ==> {
                    &&& r is Some
                    &&& *r.unwrap() == b.spec_columns()[pos as int]
                    &&& final(self).has_block()
                    &&& final(self).spec_block().unwrap().spec_columns() == b.spec_columns().update(
                        pos as int,
                        *final(r.unwrap()),
                    )
                    &&& final(self).spec_block().unwrap().spec_schema() == b.spec_schema()
                    &&& final(self).spec_block().unwrap().spec_rows() == b.spec_rows()
                    &&& final(self).spec_block().unwrap().spec_cap() == b.spec_cap()
                }
            }),
    {
        match &mut self.block {
            Some(b) => b.column_mut(pos),
            None => vstd::pervasive::unreached(),
        }
    }

    /// Set the null marker for `(col, row)` in the currently populated
    /// row space.  Fails with `RowOutOfBounds` past the row count, with
    /// an `AttributeMissing` condition for an unknown column position,
    /// and with an `AttributeNullability` condition on a column that is
    /// not nullable.
    pub fn set_null(&mut self, col: usize, row: RowOffset, value: bool) -> (r: Result<(), DBError>)
        requires
            old(self).wf(),
        ensures
            final(self).wf(),
            final(self).spec_schema() == old(self).spec_schema(),
            final(self).spec_rows() == old(self).spec_rows(),
            r is Ok <==> (row < old(self).spec_rows() && col < old(self).spec_schema().len() && old(
                self,
            ).spec_schema()[col as int].nullable),
            r is Err && old(self).has_block() ==> final(self).has_block()
                && final(self).spec_block().unwrap().spec_columns()
                == old(self).spec_block().unwrap().spec_columns(),
            row >= old(self).spec_rows() ==> r == Err::<(), DBError>(DBError::RowOutOfBounds),
            row < old(self).spec_rows() && col >= old(self).spec_schema().len() ==> (r matches Err(
                e,
            ) && (e matches DBError::AttributeMissing(s) && s@ == "(pos: "@
                + crate::math::spec_decimal(col as nat) + ")"@)),
            row < old(self).spec_rows() && col < old(self).spec_schema().len() && !old(
                self,
            ).spec_schema()[col as int].nullable ==> (r matches Err(e) && (e
                matches DBError::AttributeNullability(s) && s@ == old(self).spec_schema()[col as int].name@)),
            final(self).spec_block().unwrap().spec_cap() == old(
                self,
            ).spec_block().unwrap().spec_cap(),
            r is Ok ==> {
                let b = old(self).spec_block().unwrap();
                let nb = final(self).spec_block().unwrap();
                &&& nb.spec_columns().len() == b.spec_columns().len()
                &&& forall|i: int|
                    0 <= i < b.spec_columns().len() && i != col ==> #[trigger] nb.spec_columns()[i]
                        == b.spec_columns()[i]
                &&& spliced(
                    b.spec_columns()[col as int].null_bytes(),
                    row as int,
                    seq![if value { 1u8 } else { 0u8 }],
                    nb.spec_columns()[col as int].null_bytes(),
                )
                &&& nb.spec_columns()[col as int].row_bytes() == b.spec_columns()[col as int].row_bytes()
                &&& nb.spec_columns()[col as int].spec_arena() == b.spec_columns()[col as int].spec_arena()
            },
    {
        let rows = self.rows();
        if row >= rows {
            return Err(DBError::RowOutOfBounds);
        }
        let marker: u8 = if value {
            1
        } else {
            0
        };
        match self.column_mut(col) {
            None => Err(DBError::make_column_unknown_pos(col)),
            Some(c) => {
                let r = c.write_null(row, marker);
                proof {
                    if r is Err {
                        assert(final(self).spec_block().unwrap().spec_columns() =~= old(
                            self,
                        ).spec_block().unwrap().spec_columns());
                    }
                    assert(final(self).wf());
                }
                r
            },
        }
    }

    /// Set the value for `(col, row)` in the currently populated row
    /// space.  Fails with `RowOutOfBounds` past the row count, with an
    /// `AttributeMissing` condition for an unknown column position, and
    /// with the setter's own error when the value does not fit the
    /// column.
    pub fn set<T: ValueSetter>(&mut self, col: usize, row: RowOffset, value: T) -> (r: Result<
        (),
        DBError,
    >)
        requires
            old(self).wf(),
        ensures
            final(self).wf(),
            final(self).spec_schema() == old(self).spec_schema(),
            final(self).spec_rows() == old(self).spec_rows(),
            r is Err && old(self).has_block() ==> final(self).has_block()
                && final(self).spec_block().unwrap().spec_columns()
                == old(self).spec_block().unwrap().spec_columns(),
            row >= old(self).spec_rows() ==> r == Err::<(), DBError>(DBError::RowOutOfBounds),
            row < old(self).spec_rows() && col >= old(self).spec_schema().len() ==> (r matches Err(
                e,
            ) && (e matches DBError::AttributeMissing(s) && s@ == "(pos: "@
                + crate::math::spec_decimal(col as nat) + ")"@)),
            final(self).spec_block().unwrap().spec_cap() == old(
                self,
            ).spec_block().unwrap().spec_cap(),
            row < old(self).spec_rows() && col < old(self).spec_schema().len() ==> {
                let b = old(self).spec_block().unwrap();
                let pre = b.spec_columns()[col as int];
                &&& (r is Ok <==> value.accepts(pre))
                &&& r is Ok ==> {
                    let nb = final(self).spec_block().unwrap();
                    &&& nb.spec_columns().len() == b.spec_columns().len()
                    &&& forall|i: int|
                        0 <= i < b.spec_columns().len() && i != col ==> #[trigger] nb.spec_columns()[i]
                            == b.spec_columns()[i]
                    &&& value.row_write(pre, nb.spec_columns()[col as int], row as int)
                }
                &&& (r matches Err(e) ==> value.reject_error(pre, e))
            },
    {
        let rows = self.rows();
        if row >= rows {
            return Err(DBError::RowOutOfBounds);
        }
        match self.column_mut(col) {
            None => Err(DBError::make_column_unknown_pos(col)),
            Some(c) => {
                let r = value.set_row(c, row);
                proof {
                    if r is Err {
                        assert(final(self).spec_block().unwrap().spec_columns() =~= old(
                            self,
                        ).spec_block().unwrap().spec_columns());
                    }
                    assert(final(self).wf());
                }
                r
            },
        }
    }
}

impl DataView for Table {
    type Col = Column;

    open spec fn wf(&self) -> bool {
        self.spec_block() matches Some(b) && b.wf()
    }

    open spec fn spec_schema(&self) -> Seq<crate::schema::Attribute> {
        self.spec_block().unwrap().spec_schema()
    }

    open spec fn spec_rows(&self) -> nat {
        self.spec_block().unwrap().spec_rows()
    }

    open spec fn col_row_bytes(&self, i: int) -> Seq<u8> {
        self.spec_block().unwrap().col_row_bytes(i)
    }

    open spec fn col_null_bytes(&self, i: int) -> Seq<u8> {
        self.spec_block().unwrap().col_null_bytes(i)
    }

    proof fn view_coherent(&self) {
        self.spec_block().unwrap().view_coherent();
    }

    fn schema(&self) -> (s: &Schema) {
        match &self.block {
            Some(b) => b.schema(),
            None => vstd::pervasive::unreached(),
        }
    }

    fn column(&self, pos: usize) -> (c: Option<&Column>) {
        match &self.block {
            Some(b) => b.column(pos),
            None => vstd::pervasive::unreached(),
        }
    }

    fn rows(&self) -> (r: RowOffset) {
        match &self.block {
            Some(b) => b.rows(),
            None => vstd::pervasive::unreached(),
        }
    }
}

/// A convenient way to programmatically build a [`Table`]'s block.
///
/// The appender works on a row-by-column basis: add a new row, then fill
/// up the columns of that row from left to right.  The first error is
/// latched; later calls do nothing until it is taken with
/// [`TableAppender::done`].  The appender owns the table while building;
/// [`TableAppender::into_table`] gives it back.
pub struct TableAppender {
    table: Table,
    row: RowOffset,
    col: usize,
    error: Option<DBError>,
}

impl TableAppender {
    pub closed spec fn spec_table(&self) -> Table {
        self.table
    }

    pub closed spec fn spec_row(&self) -> nat {
        self.row as nat
    }

    pub closed spec fn spec_col(&self) -> nat {
        self.col as nat
    }

    pub closed spec fn spec_error(&self) -> Option<DBError> {
        self.error
    }

    pub open spec fn wf(&self) -> bool {
        self.spec_table().wf()
    }

    /// Begin appending to `table`, taking ownership of it.
    pub fn new(table: Table) -> (a: TableAppender)
        requires
            table.wf(),
        ensures
            a.wf(),
            a.spec_table() == table,
            a.spec_row() == table.spec_rows(),
            a.spec_col() == 0,
            a.spec_error() is None,
    {
        let row = table.rows();
        TableAppender { table, row, col: 0, error: None }
    }

    /// Result (error) of the append operations so far.
    pub fn status(&self) -> (r: Option<&DBError>)
        ensures
            r is Some <==> self.spec_error() is Some,
            r matches Some(e) ==> *e == self.spec_error().unwrap(),
    {
        self.error.as_ref()
    }

    /// Take the result (error) of the append operations.
    pub fn done(&mut self) -> (r: Option<DBError>)
        ensures
            r == old(self).spec_error(),
            final(self).spec_error() is None,
            final(self).spec_table() == old(self).spec_table(),
            final(self).spec_row() == old(self).spec_row(),
            final(self).spec_col() == old(self).spec_col(),
    {
        self.error.take()
    }

    /// Give the table back when appending is finished.
    pub fn into_table(self) -> (t: Table)
        ensures
            t == self.spec_table(),
    {
        self.table
    }

    /// Append a new row; further values go to that row's columns,
    /// starting at the leftmost.
    pub fn add_row(self) -> (a: TableAppender)
        requires
            self.wf(),
            self.spec_error() is None ==> {
                let b = self.spec_table().spec_block().unwrap();
                b.spec_cap() > b.spec_rows() || (b.spec_cap() + 1024) * 24 <= usize::MAX
            },
        ensures
            a.wf(),
            self.spec_error() is Some ==> a == self,
            self.spec_error() is None ==> {
                let b = self.spec_table().spec_block().unwrap();
                &&& a.spec_error() is None
                &&& a.spec_col() == 0
                &&& a.spec_row() == self.spec_table().spec_rows()
                &&& a.spec_table().spec_rows() == self.spec_table().spec_rows() + 1
                &&& a.spec_table().spec_schema() == self.spec_table().spec_schema()
                &&& a.spec_table().spec_block().unwrap().spec_cap() == if b.spec_cap()
                    > b.spec_rows() {
                    b.spec_cap()
                } else {
                    b.spec_cap() + 1024
                }
                &&& block_data_preserved(b, a.spec_table().spec_block().unwrap())
            },
    {
        let mut this = self;
        if this.error.is_some() {
            return this;
        }
        this.col = 0;
        match this.table.add_row() {
            Ok(row) => {
                this.row = row;
            },
            Err(e) => {
                this.error = Some(e);
            },
        }
        this
    }

    /// Set the current column's value to null (or clear the marker) and
    /// move onto the column to the right.
    pub fn set_null(self, value: bool) -> (a: TableAppender)
        requires
            self.wf(),
            self.spec_col() < usize::MAX,
        ensures
            a.wf(),
            self.spec_error() is Some ==> a == self,
            self.spec_error() is None ==> {
                let t = self.spec_table();
                let b = t.spec_block().unwrap();
                let ok = self.spec_row() < t.spec_rows() && self.spec_col() < t.spec_schema().len()
                    && t.spec_schema()[self.spec_col() as int].nullable;
                &&& a.spec_col() == self.spec_col() + 1
                &&& a.spec_row() == self.spec_row()
                &&& a.spec_table().spec_schema() == t.spec_schema()
                &&& a.spec_table().spec_rows() == t.spec_rows()
                &&& a.spec_table().spec_block().unwrap().spec_cap() == b.spec_cap()
                &&& (a.spec_error() is None <==> ok)
                &&& a.spec_error() is None ==> {
                    let nb = a.spec_table().spec_block().unwrap();
                    &&& nb.spec_columns().len() == b.spec_columns().len()
                    &&& forall|i: int|
                        0 <= i < b.spec_columns().len() && i != self.spec_col() ==> #[trigger] nb.spec_columns()[i]
                            == b.spec_columns()[i]
                    &&& spliced(
                        b.spec_columns()[self.spec_col() as int].null_bytes(),
                        self.spec_row() as int,
                        seq![if value { 1u8 } else { 0u8 }],
                        nb.spec_columns()[self.spec_col() as int].null_bytes(),
                    )
                    &&& nb.spec_columns()[self.spec_col() as int].row_bytes()
                        == b.spec_columns()[self.spec_col() as int].row_bytes()
                    &&& nb.spec_columns()[self.spec_col() as int].spec_arena()
                        == b.spec_columns()[self.spec_col() as int].spec_arena()
                }
                &&& a.spec_error() is Some ==> a.spec_table().spec_block().unwrap().spec_columns()
                    == b.spec_columns()
                &&& !ok ==> (a.spec_error() matches Some(e) && (if self.spec_row()
                    >= t.spec_rows() {
                    e == DBError::RowOutOfBounds
                } else if self.spec_col() >= t.spec_schema().len() {
                    (e matches DBError::AttributeMissing(s) && s@ == "(pos: "@
                        + crate::math::spec_decimal(self.spec_col()) + ")"@)
                } else {
                    (e matches DBError::AttributeNullability(s) && s@ == t.spec_schema()[self.spec_col() as int].name@)
                }))
            },
    {
        let mut this = self;
        if this.error.is_some() {
            return this;
        }
        this.error = match this.table.set_null(this.col, this.row, value) {
            Ok(_) => None,
            Err(e) => Some(e),
        };
        this.col = this.col + 1;
        this
    }

    /// Set the current column's value and move onto the column to the
    /// right.
    pub fn set<T: ValueSetter>(self, value: T) -> (a: TableAppender)
        requires
            self.wf(),
            self.spec_col() < usize::MAX,
        ensures
            a.wf(),
            self.spec_error() is Some ==> a == self,
            self.spec_error() is None ==> {
                let t = self.spec_table();
                let b = t.spec_block().unwrap();
                let ok = self.spec_row() < t.spec_rows() && self.spec_col() < t.spec_schema().len()
                    && value.accepts(b.spec_columns()[self.spec_col() as int]);
                &&& a.spec_col() == self.spec_col() + 1
                &&& a.spec_row() == self.spec_row()
                &&& a.spec_table().spec_schema() == t.spec_schema()
                &&& a.spec_table().spec_rows() == t.spec_rows()
                &&& a.spec_table().spec_block().unwrap().spec_cap() == b.spec_cap()
                &&& (a.spec_error() is None <==> ok)
                &&& a.spec_error() is None ==> {
                    let nb = a.spec_table().spec_block().unwrap();
                    &&& nb.spec_columns().len() == b.spec_columns().len()
                    &&& forall|i: int|
                        0 <= i < b.spec_columns().len() && i != self.spec_col() ==> #[trigger] nb.spec_columns()[i]
                            == b.spec_columns()[i]
                    &&& value.row_write(
                        b.spec_columns()[self.spec_col() as int],
                        nb.spec_columns()[self.spec_col() as int],
                        self.spec_row() as int,
                    )
                }
                &&& a.spec_error() is Some ==> a.spec_table().spec_block().unwrap().spec_columns()
                    == b.spec_columns()
                &&& !ok ==> (a.spec_error() matches Some(e) && (if self.spec_row()
                    >= t.spec_rows() {
                    e == DBError::RowOutOfBounds
                } else if self.spec_col() >= t.spec_schema().len() {
                    (e matches DBError::AttributeMissing(s) && s@ == "(pos: "@
                        + crate::math::spec_decimal(self.spec_col()) + ")"@)
                } else {
                    value.reject_error(b.spec_columns()[self.spec_col() as int], e)
                }))
            },
    {
        let mut this = self;
        if this.error.is_some() {
            return this;
        }
        this.error = match this.table.set(this.col, this.row, value) {
            Ok(_) => None,
            Err(e) => Some(e),
        };
        this.col = this.col + 1;
        this
    }
}

} // verus!

use dbkit_engine::allocator::HeapAllocator;
use dbkit_engine::col_map::{BoundOneColMapper, WidenUInt32};
use dbkit_engine::block::{
    alias_column, column_row_data, window_alias, Block, DataView, RefColumn,
};
use dbkit_engine::copy_value::ValueSetter;
use dbkit_engine::error::DBError;
use dbkit_engine::row::RowRange;
use dbkit_engine::schema::Schema;
use dbkit_engine::table::{Table, TableAppender};
use dbkit_engine::types::{Text, Type, UInt32, UInt64};

fn four_row_block() -> Table {
    let alloc = HeapAllocator {};
    let schema = Schema::make_one_attr("v", false, Type::UINT32);
    let table = Table::new(&alloc, &schema, None);
    let mut appender = TableAppender::new(table)
        .add_row()
        .set(10u32)
        .add_row()
        .set(20u32)
        .add_row()
        .set(30u32)
        .add_row()
        .set(40u32);
    assert!(appender.done().is_none());
    appender.into_table()
}

// Scenario: one nullable UINT32 attribute, a block of capacity 0, and a
// single add_row: the lazy-growth default policy gives 1024 slots.
#[test]
fn lazy_growth_default() {
    let alloc = HeapAllocator {};
    let schema = Schema::make_one_attr("v", true, Type::UINT32);
    let mut block = Block::new(&alloc, &schema);
    assert_eq!(block.capacity(), 0);
    assert_eq!(block.rows(), 0);
    let row = block.add_row().unwrap();
    assert_eq!(row, 0);
    assert_eq!(block.rows(), 1);
    assert_eq!(block.capacity(), 1024);
}

// rows() never exceeds capacity(), and capacity grows in multiples of
// 1024 once growth is triggered.
#[test]
fn growth_policy() {
    let alloc = HeapAllocator {};
    let schema = Schema::make_one_attr("v", false, Type::UINT64);
    let mut block = Block::new(&alloc, &schema);

    block.add_row().unwrap();
    assert!(block.rows() <= block.capacity());
    assert_eq!(block.capacity() % 1024, 0);

    let start = block.add_rows(2000).unwrap();
    assert_eq!(start, 1);
    assert_eq!(block.rows(), 2001);
    assert!(block.rows() <= block.capacity());
    assert_eq!(block.capacity() % 1024, 0);
    assert_eq!(block.capacity(), 2048);

    // Growth within capacity leaves capacity alone.
    block.add_row().unwrap();
    assert_eq!(block.capacity(), 2048);
}

// Round-trip through grow: values written before a resize are still
// readable, unchanged, after a non-decreasing set_capacity sequence.
#[test]
fn set_capacity_preserves_rows() {
    let alloc = HeapAllocator {};
    let schema = Schema::make_one_attr("v", false, Type::UINT32);
    let mut block = Block::new(&alloc, &schema);
    block.add_rows(3).unwrap();
    {
        let col = block.column_mut(0).unwrap();
        11u32.set_row(col, 0).unwrap();
        22u32.set_row(col, 1).unwrap();
        33u32.set_row(col, 2).unwrap();
    }
    assert!(block.set_capacity(5000).is_none());
    assert_eq!(block.capacity(), 5000);
    assert_eq!(block.rows(), 3);

    let rows = column_row_data::<UInt32, _>(block.column(0).unwrap()).unwrap();
    assert_eq!(rows.values[0], 11);
    assert_eq!(rows.values[1], 22);
    assert_eq!(rows.values[2], 33);
}

// Aliasing a range past the source's capacity (or row count, for a
// view) fails with RowOutOfBounds and produces nothing.
#[test]
fn alias_out_of_bounds() {
    let table = four_row_block();
    let block = table.block_ref();
    let col = block.column(0).unwrap();

    let cap = col.capacity();
    match alias_column(col, Some(RowRange { offset: cap - 1, rows: 2 })) {
        Err(DBError::RowOutOfBounds) => (),
        other => panic!("expected RowOutOfBounds, got {:?}", other.map(|_| ())),
    }

    // Views are bounded by the row count, not the capacity.
    match window_alias(block, Some(RowRange { offset: 3, rows: 2 })) {
        Err(DBError::RowOutOfBounds) => (),
        other => panic!("expected RowOutOfBounds, got {:?}", other.map(|_| ())),
    }
}

// Scenario: two non-overlapping windows of the same 4-row source column
// reference disjoint ranges and see their own values only.
#[test]
fn disjoint_windows() {
    let table = four_row_block();
    let block = table.block_ref();
    let col = block.column(0).unwrap();

    let first = alias_column(col, Some(RowRange { offset: 0, rows: 2 })).unwrap();
    let second = alias_column(col, Some(RowRange { offset: 2, rows: 2 })).unwrap();

    assert_eq!(first.capacity(), 2);
    assert_eq!(second.capacity(), 2);

    let a = column_row_data::<UInt32, _>(&first).unwrap();
    let b = column_row_data::<UInt32, _>(&second).unwrap();
    assert_eq!(a.values, vec![10, 20]);
    assert_eq!(b.values, vec![30, 40]);
}

#[test]
fn window_alias_rows() {
    let table = four_row_block();
    let block = table.block_ref();

    let whole = window_alias(block, None).unwrap();
    assert_eq!(whole.rows(), 4);
    assert_eq!(whole.schema().count(), 1);

    let sub = window_alias(block, Some(RowRange { offset: 1, rows: 2 })).unwrap();
    assert_eq!(sub.rows(), 2);
    let rows = column_row_data::<UInt32, _>(sub.column(0).unwrap()).unwrap();
    assert_eq!(rows.values[0], 20);
    assert_eq!(rows.values[1], 30);
}

// Round-trip: a 5-byte text value written to a nullable TEXT column at
// row 0 reads back with length 5, the original bytes, and a clear
// null-bit.
#[test]
fn text_round_trip() {
    let alloc = HeapAllocator {};
    let schema = Schema::make_one_attr("t", true, Type::TEXT);
    let mut table = Table::new(&alloc, &schema, None);
    table.add_row().unwrap();
    table.set(0, 0, "hello").unwrap();

    let block = table.block_ref();
    let col = block.column(0).unwrap();
    let rows = column_row_data::<Text, _>(col).unwrap();
    assert_eq!(rows.values[0].size, 5);
    assert_eq!(col.var_bytes(&rows.values[0]).unwrap().as_slice(), b"hello");
    assert_eq!(rows.nulls[0], 0);
}

#[test]
fn typed_read_rejects_wrong_token() {
    let table = four_row_block();
    let block = table.block_ref();
    let col = block.column(0).unwrap();
    match column_row_data::<UInt64, _>(col) {
        Err(DBError::AttributeType(s)) => assert_eq!(s, "v"),
        other => panic!("expected AttributeType, got {:?}", other.map(|_| ())),
    }
}

// A value larger than the arena's 16 MB cap is rejected with
// MemoryLimit; the row keeps its previous state.
#[test]
fn oversized_text_rejected() {
    let alloc = HeapAllocator {};
    let schema = Schema::make_one_attr("t", false, Type::TEXT);
    let mut table = Table::new(&alloc, &schema, None);
    table.add_row().unwrap();
    let big = vec![b'x'; 16 * 1024 * 1024 + 1];
    let text = String::from_utf8(big).unwrap();
    match table.set(0, 0, text) {
        Err(DBError::MemoryLimit) => (),
        other => panic!("expected MemoryLimit, got {:?}", other),
    }
}

// Mapping a column value-by-value: live rows are mapped, null rows stay
// null with a zeroed value window.
#[test]
fn one_col_mapper() {
    let alloc = HeapAllocator {};
    let in_schema = Schema::make_one_attr("src", true, Type::UINT32);
    let table = Table::new(&alloc, &in_schema, None);
    let mut appender = TableAppender::new(table)
        .add_row()
        .set(7u32)
        .add_row()
        .set(Option::<u32>::None);
    assert!(appender.done().is_none());
    let table = appender.into_table();
    let in_block = table.block_ref();
    let in_col = in_block.column(0).unwrap();

    let out_schema = Schema::make_one_attr("dst", true, Type::UINT64);
    let mut out_block = Block::new(&alloc, &out_schema);
    assert!(out_block.set_capacity(in_col.capacity()).is_none());

    let bound = BoundOneColMapper::new();
    let written = {
        let out_col = out_block.column_mut(0).unwrap();
        bound.map(in_col, out_col, &WidenUInt32 {}).unwrap()
    };
    assert_eq!(written, in_col.capacity());

    let rows = column_row_data::<UInt64, _>(out_block.column(0).unwrap()).unwrap();
    assert_eq!(rows.values[0], 7);
    assert_eq!(rows.nulls[0], 0);
    assert_eq!(rows.values[1], 0);
    assert_eq!(rows.nulls[1], 1);

    // A wrong output type tag is reported.
    {
        let wrong_schema = Schema::make_one_attr("wrong", true, Type::UINT32);
        let mut wrong_block = Block::new(&alloc, &wrong_schema);
        assert!(wrong_block.set_capacity(in_col.capacity()).is_none());
        let wrong_col = wrong_block.column_mut(0).unwrap();
        match bound.map(in_col, wrong_col, &WidenUInt32 {}) {
            Err(DBError::AttributeType(s)) => assert_eq!(s, "wrong"),
            other => panic!("expected AttributeType, got {:?}", other),
        }
    }
}

use dbkit_engine::allocator::HeapAllocator;
use dbkit_engine::block::{column_row_data, DataView, RefColumn};
use dbkit_engine::error::DBError;
use dbkit_engine::schema::{Attribute, Schema};
use dbkit_engine::table::{Table, TableAppender};
use dbkit_engine::types::{Blob, Boolean, Int32, Int64, Text, Type, UInt32, UInt64};

// Append one row to table via TableAppender, verify that underlying block has one row.
#[test]
fn appender_rows() {
    let alloc = HeapAllocator {};
    let schema = Schema::make_one_attr("test_column", true, Type::UINT32);
    let table = Table::new(&alloc, &schema, None);

    let mut appender = TableAppender::new(table)
        .add_row()
        .set_null(true)
        .add_row()
        .set(15 as u32);
    let status = appender.done();
    assert!(status.is_none(), "Error appending rows {:?}", status.unwrap());

    let mut table = appender.into_table();

    // Schema looks correct
    assert_eq!(table.block_ref().schema().count(), 1);

    // Expected number of rows
    assert_eq!(table.block_ref().rows(), 2);

    // Verify data
    {
        let block = table.block_ref();
        let column = block.column(0).unwrap();
        let rows = column_row_data::<UInt32, _>(column).unwrap();

        assert!(rows.nulls[0] == 1 && rows.nulls[1] == 0, "Null vector incorrect");
        assert_eq!(rows.values[1], 15);
    }

    // Block exists
    assert!(table.take().is_some(), "No block inside table");
}

#[test]
fn appender_end_of_row() {
    let alloc = HeapAllocator {};
    let schema = Schema::make_one_attr("test_column", true, Type::UINT32);
    let table = Table::new(&alloc, &schema, None);

    let mut appender = TableAppender::new(table).add_row().set_null(true).set(15 as u32);
    let status = appender.done();

    match status {
        Some(DBError::AttributeMissing(_)) => (), // nop
        Some(e) => assert!(false, "Unexpected error {:?}", e),
        None => assert!(false, "Expected error"),
    }
}

#[test]
fn varlen_columns() {
    let bytes: [u8; 5] = [0, 1, 2, 3, 4];
    let alloc = HeapAllocator {};

    let table = {
        let attrs = vec![
            Attribute { name: "one".to_string(), nullable: false, dtype: Type::BLOB },
            Attribute { name: "two".to_string(), nullable: false, dtype: Type::TEXT },
        ];

        let schema = Schema::from_vec(attrs).unwrap();
        let table = Table::new(&alloc, &schema, None);

        let mut appender = TableAppender::new(table)
            .add_row()
            .set(bytes.as_ref())
            .set("one")
            .add_row()
            .set(bytes.as_ref())
            .set("two".to_string());
        let status = appender.done();
        assert!(status.is_none(), "Error appending rows {:?}", status.unwrap());

        appender.into_table()
    };

    {
        let col0 = table.block_ref().column(0).unwrap();
        let rows = column_row_data::<Blob, _>(col0).unwrap();
        assert_eq!(col0.var_bytes(&rows.values[0]).unwrap().as_slice(), &bytes);
        assert_eq!(col0.var_bytes(&rows.values[1]).unwrap().as_slice(), &bytes);
    }

    {
        let col1 = table.block_ref().column(1).unwrap();
        let rows = column_row_data::<Text, _>(col1).unwrap();
        assert_eq!(col1.var_bytes(&rows.values[0]).unwrap().as_slice(), b"one");
        let two = String::from_utf8(col1.var_bytes(&rows.values[1]).unwrap()).unwrap();
        assert_eq!(two, String::from("two"));
    }
}

#[test]
fn table_set_errors() {
    let alloc = HeapAllocator {};
    let schema = Schema::make_one_attr("v", false, Type::UINT32);
    let mut table = Table::new(&alloc, &schema, None);
    table.add_row().unwrap();

    // Row past the populated space.
    match table.set(0, 5, 7u32) {
        Err(DBError::RowOutOfBounds) => (),
        other => panic!("expected RowOutOfBounds, got {:?}", other),
    }
    // Unknown column position.
    match table.set(3, 0, 7u32) {
        Err(DBError::AttributeMissing(s)) => assert_eq!(s, "(pos: 3)"),
        other => panic!("expected AttributeMissing, got {:?}", other),
    }
    // Type mismatch.
    match table.set(0, 0, 7u64) {
        Err(DBError::AttributeType(s)) => assert_eq!(s, "v"),
        other => panic!("expected AttributeType, got {:?}", other),
    }
    // Null marker on a non-nullable column.
    match table.set_null(0, 0, true) {
        Err(DBError::AttributeNullability(s)) => assert_eq!(s, "v"),
        other => panic!("expected AttributeNullability, got {:?}", other),
    }
    // A well-typed write succeeds.
    assert!(table.set(0, 0, 7u32).is_ok());
}

#[test]
fn option_setter_marks_null() {
    let alloc = HeapAllocator {};
    let schema = Schema::make_one_attr("v", true, Type::UINT32);
    let table = Table::new(&alloc, &schema, None);

    let mut appender = TableAppender::new(table)
        .add_row()
        .set(Option::<u32>::None)
        .add_row()
        .set(Some(42u32));
    let status = appender.done();
    assert!(status.is_none(), "Error appending rows {:?}", status.unwrap());

    let table = appender.into_table();
    let block = table.block_ref();
    let rows = column_row_data::<UInt32, _>(block.column(0).unwrap()).unwrap();
    assert_eq!(rows.nulls[0], 1);
    assert_eq!(rows.nulls[1], 0);
    assert_eq!(rows.values[1], 42);
}

#[test]
fn fixed_width_setters_round_trip() {
    let alloc = HeapAllocator {};
    let attrs = vec![
        Attribute { name: "a".to_string(), nullable: false, dtype: Type::INT32 },
        Attribute { name: "b".to_string(), nullable: false, dtype: Type::INT64 },
        Attribute { name: "c".to_string(), nullable: false, dtype: Type::BOOLEAN },
        Attribute { name: "d".to_string(), nullable: false, dtype: Type::UINT64 },
    ];
    let schema = Schema::from_vec(attrs).unwrap();
    let table = Table::new(&alloc, &schema, None);
    let mut appender = TableAppender::new(table)
        .add_row()
        .set(-5i32)
        .set(-1234567890123i64)
        .set(true)
        .set(9876543210u64);
    assert!(appender.done().is_none());
    let table = appender.into_table();
    let block = table.block_ref();

    let a = column_row_data::<Int32, _>(block.column(0).unwrap()).unwrap();
    assert_eq!(a.values[0], -5);
    let b = column_row_data::<Int64, _>(block.column(1).unwrap()).unwrap();
    assert_eq!(b.values[0], -1234567890123);
    let c = column_row_data::<Boolean, _>(block.column(2).unwrap()).unwrap();
    assert!(c.values[0]);
    let d = column_row_data::<UInt64, _>(block.column(3).unwrap()).unwrap();
    assert_eq!(d.values[0], 9876543210);
}

#[test]
fn nulls_mut_direct_access() {
    let alloc = HeapAllocator {};
    let schema = Schema::make_one_attr("v", true, Type::UINT32);
    let mut table = Table::new(&alloc, &schema, Some(4));
    {
        let col = table.column_mut(0).unwrap();
        let nulls = col.nulls_mut().unwrap();
        assert_eq!(nulls.len(), 4);
        nulls[2] = 1;
    }
    let rows = column_row_data::<UInt32, _>(table.block_ref().column(0).unwrap()).unwrap();
    assert_eq!(rows.nulls, vec![0, 0, 1, 0]);

    // A non-nullable column refuses null access.
    let schema2 = Schema::make_one_attr("w", false, Type::UINT32);
    let mut table2 = Table::new(&alloc, &schema2, Some(1));
    let col = table2.column_mut(0).unwrap();
    match col.nulls_mut() {
        Err(DBError::AttributeNullability(s)) => assert_eq!(s, "w"),
        other => panic!("expected AttributeNullability, got {:?}", other.map(|_| ())),
    }
}

#[test]
fn arena_access_on_column() {
    let alloc = HeapAllocator {};
    let schema = Schema::make_one_attr("t", false, Type::TEXT);
    let mut table = Table::new(&alloc, &schema, Some(1));
    let loc = {
        let col = table.column_mut(0).unwrap();
        col.arena().append(b"payload").unwrap()
    };
    let rec = dbkit_engine::types::RawData { chunk: loc.0, offset: loc.1, size: 7 };
    let col = table.block_ref().column(0).unwrap();
    assert_eq!(col.var_bytes(&rec).unwrap().as_slice(), b"payload");

    // A record outside the arena's allocated chunks is rejected.
    let bad = dbkit_engine::types::RawData { chunk: 9, offset: 0, size: 1 };
    match col.var_bytes(&bad) {
        Err(DBError::RowOutOfBounds) => (),
        other => panic!("expected RowOutOfBounds, got {:?}", other),
    }
}

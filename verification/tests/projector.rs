use dbkit_engine::allocator::HeapAllocator;
use dbkit_engine::block::{column_row_data, DataView, RefColumn};
use dbkit_engine::error::DBError;
use dbkit_engine::projector::{
    project_all_attributes, project_by_name, project_by_position, BuildSingleSourceProjector,
    MultiSourceProjector,
};
use dbkit_engine::schema::{Attribute, Schema};
use dbkit_engine::table::{Table, TableAppender};
use dbkit_engine::types::{Type, UInt32};

fn three_col_schema() -> Schema {
    let attrs = vec![
        Attribute { name: "one".to_string(), nullable: false, dtype: Type::UINT32 },
        Attribute { name: "two".to_string(), nullable: false, dtype: Type::UINT32 },
        Attribute { name: "three".to_string(), nullable: false, dtype: Type::UINT32 },
    ];
    Schema::from_vec(attrs).unwrap()
}

// Columns are correctly re-arranged and renamed by a bound projection.
#[test]
fn reorder_columns() {
    let alloc = HeapAllocator {};
    let schema = three_col_schema();
    let table = Table::new(&alloc, &schema, None);
    let mut appender = TableAppender::new(table)
        .add_row()
        .set(0 as u32)
        .set(1 as u32)
        .set(13 as u32);
    assert!(appender.done().is_none());
    let table = appender.into_table();

    let proj = BuildSingleSourceProjector::new()
        .add_as(project_by_position(2), "new_one")
        .add(project_by_name("two"))
        .done();

    let bound = proj.bind(table.block_ref().schema()).unwrap();
    assert_eq!(bound.schema.count(), 2);
    assert_eq!(bound.schema.get(0).unwrap().name, "new_one");
    assert_eq!(bound.schema.get(1).unwrap().name, "two");

    let view = bound.project_view(table.block_ref()).unwrap();
    assert_eq!(view.rows(), 1);
    assert_eq!(view.schema().get(0).unwrap().name, "new_one");
    let col0 = column_row_data::<UInt32, _>(view.column(0).unwrap()).unwrap();
    let col1 = column_row_data::<UInt32, _>(view.column(1).unwrap()).unwrap();
    assert_eq!(col0.values[0], 13);
    assert_eq!(col1.values[0], 1);
}

#[test]
fn project_all_keeps_order() {
    let schema = three_col_schema();
    let bound = project_all_attributes().bind(&schema).unwrap();
    assert_eq!(bound.schema.count(), 3);
    assert_eq!(bound.schema.get(0).unwrap().name, "one");
    assert_eq!(bound.schema.get(2).unwrap().name, "three");
}

#[test]
fn prefixed_projection() {
    let schema = three_col_schema();
    let proj = BuildSingleSourceProjector::new()
        .add_prefixed(project_all_attributes(), "left_")
        .done();
    let bound = proj.bind(&schema).unwrap();
    assert_eq!(bound.schema.count(), 3);
    assert_eq!(bound.schema.get(0).unwrap().name, "left_one");
    assert_eq!(bound.schema.get(1).unwrap().name, "left_two");
}

#[test]
fn bind_failures() {
    let schema = three_col_schema();

    // Missing source position.
    match project_by_position(9).bind(&schema) {
        Err(DBError::AttributeMissing(_)) => (),
        other => panic!("expected AttributeMissing, got {:?}", other.map(|_| ())),
    }
    // Missing source name.
    match project_by_name("absent").bind(&schema) {
        Err(DBError::AttributeMissing(_)) => (),
        other => panic!("expected AttributeMissing, got {:?}", other.map(|_| ())),
    }
    // Duplicate output names.
    let proj = BuildSingleSourceProjector::new()
        .add(project_by_position(0))
        .add_as(project_by_position(1), "one")
        .done();
    match proj.bind(&schema) {
        Err(DBError::AttributeDuplicate(s)) => assert_eq!(s, "one"),
        other => panic!("expected AttributeDuplicate, got {:?}", other.map(|_| ())),
    }
}

#[test]
fn multi_source_unavailable() {
    let schema = three_col_schema();
    let proj = MultiSourceProjector::new();
    match proj.bind(&[&schema]) {
        Err(DBError::Unknown) => (),
        other => panic!("expected Unknown, got {:?}", other.map(|_| ())),
    }
}

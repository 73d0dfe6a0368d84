use dbkit_engine::error::DBError;
use dbkit_engine::schema::{Attribute, Schema};
use dbkit_engine::types::Type;

fn attr(name: &str, dtype: Type) -> Attribute {
    Attribute { name: name.to_string(), nullable: false, dtype }
}

#[test]
fn duplicate_names_rejected() {
    let attrs = vec![attr("a", Type::UINT32), attr("b", Type::TEXT), attr("a", Type::INT64)];
    match Schema::from_vec(attrs) {
        Err(DBError::AttributeDuplicate(s)) => assert_eq!(s, "a"),
        other => panic!("expected AttributeDuplicate, got {:?}", other.map(|_| ())),
    }
}

#[test]
fn unique_names_accepted() {
    let attrs = vec![attr("a", Type::UINT32), attr("b", Type::TEXT)];
    let schema = Schema::from_vec(attrs).unwrap();
    assert_eq!(schema.count(), 2);
    assert_eq!(schema.get(0).unwrap().name, "a");
    assert_eq!(schema.get(1).unwrap().dtype, Type::TEXT);
}

#[test]
fn lookups() {
    let attrs = vec![attr("a", Type::UINT32), attr("b", Type::TEXT)];
    let schema = Schema::from_vec(attrs).unwrap();

    assert_eq!(schema.name_pos("b"), Some(1));
    assert_eq!(schema.name_pos("c"), None);
    assert_eq!(schema.exists_ok("a").unwrap(), 0);
    match schema.exists_ok("zz") {
        Err(DBError::AttributeMissing(s)) => assert_eq!(s, "(name: zz)"),
        other => panic!("expected AttributeMissing, got {:?}", other),
    }
    assert_eq!(schema.find("b").unwrap().dtype, Type::TEXT);
    match schema.find("zz") {
        Err(DBError::AttributeMissing(s)) => assert_eq!(s, "(name: zz)"),
        other => panic!("expected AttributeMissing, got {:?}", other.map(|_| ())),
    }
    match schema.get(7) {
        Err(DBError::AttributeMissing(s)) => assert_eq!(s, "(pos: 7)"),
        other => panic!("expected AttributeMissing, got {:?}", other.map(|_| ())),
    }
}

#[test]
fn rename_keeps_shape() {
    let a = Attribute { name: "old".to_string(), nullable: true, dtype: Type::BLOB };
    let r = a.rename("new");
    assert_eq!(r.name, "new");
    assert!(r.nullable);
    assert_eq!(r.dtype, Type::BLOB);
}

#[test]
fn iteration_in_order() {
    let attrs = vec![attr("a", Type::UINT32), attr("b", Type::TEXT), attr("c", Type::BOOLEAN)];
    let schema = Schema::from_vec(attrs).unwrap();
    let mut it = schema.iter();
    let mut names: Vec<String> = Vec::new();
    while let Some(a) = it.next() {
        names.push(a.name.clone());
    }
    assert_eq!(names, vec!["a", "b", "c"]);
}

#[test]
fn single_attribute_constructors() {
    let s = Schema::make_one_attr("only", true, Type::INT32);
    assert_eq!(s.count(), 1);
    let a = s.get(0).unwrap();
    assert_eq!(a.name, "only");
    assert!(a.nullable);
    assert_eq!(a.dtype, Type::INT32);

    let s2 = Schema::from_attr(a.clone());
    assert_eq!(s2.count(), 1);
    assert_eq!(s2.get(0).unwrap().name, "only");
}

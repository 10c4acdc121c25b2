use stream_engine::schema::{ddd, ii, iii, sss, DataType, Field, Schema};

#[test]
fn util_schemas_have_their_shapes() {
    assert_eq!(ii().len(), 2);
    assert_eq!(iii().data_types(), vec![DataType::Int32; 3]);
    assert_eq!(sss().data_types(), vec![DataType::Varchar; 3]);
    assert_eq!(ddd().data_types(), vec![DataType::Decimal; 3]);
    assert!(ii().fields().iter().all(|f| f.name.is_empty()));
}

#[test]
fn schema_accessors() {
    let s = Schema::new(vec![
        Field::with_name(DataType::Int64, "a".to_string()),
        Field::unnamed(DataType::Boolean),
    ]);
    assert_eq!(s.len(), 2);
    assert!(!s.is_empty());
    assert!(Schema::new(vec![]).is_empty());
    assert_eq!(s.index(0).name, "a");
    assert_eq!(s.index(1).data_type(), DataType::Boolean);
    let builders = s.create_array_builders(4);
    assert_eq!(builders.len(), 2);
    assert_eq!(builders[1].data_type, DataType::Boolean);
    assert!(builders[0].values.is_empty());
}

#[test]
fn array_builder_collects_values() {
    let mut b = stream_engine::schema::ArrayBuilder::new(DataType::Int64, 2);
    b.append(Some(1));
    b.append(None);
    assert_eq!(b.finish(), vec![Some(1), None]);
}

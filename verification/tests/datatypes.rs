use polars_lazy::datatypes::{DataType, DeDataType, Field, Schema, TimeUnit};
use polars_lazy::error::EvaluationError;

#[test]
fn each_type_with_a_wire_form_is_converted() {
    assert_eq!(DeDataType::from(&DataType::Int32), DeDataType::Int32);
    assert_eq!(DeDataType::from(&DataType::UInt32), DeDataType::UInt32);
    assert_eq!(DeDataType::from(&DataType::Int64), DeDataType::Int64);
    assert_eq!(DeDataType::from(&DataType::UInt64), DeDataType::UInt64);
    assert_eq!(DeDataType::from(&DataType::Date), DeDataType::Date);
    assert_eq!(DeDataType::from(&DataType::Datetime), DeDataType::Datetime);
    assert_eq!(DeDataType::from(&DataType::Float32), DeDataType::Float32);
    assert_eq!(DeDataType::from(&DataType::Float64), DeDataType::Float64);
    assert_eq!(DeDataType::from(&DataType::Utf8), DeDataType::Utf8);
    assert_eq!(DeDataType::from(&DataType::Boolean), DeDataType::Boolean);
    assert_eq!(DeDataType::from(&DataType::Null), DeDataType::Null);
}

#[test]
fn a_list_loses_the_type_of_its_items() {
    let list = DataType::List(Box::new(DataType::Int32));
    assert_eq!(DeDataType::from(&list), DeDataType::List);
    let nested = DataType::List(Box::new(DataType::List(Box::new(DataType::Utf8))));
    assert_eq!(DeDataType::from(&nested), DeDataType::List);
    // also where the items themselves have no wire form
    let narrow = DataType::List(Box::new(DataType::UInt8));
    assert!(narrow.is_serializable());
    assert_eq!(DeDataType::from(&narrow), DeDataType::List);
}

#[test]
fn an_object_keeps_its_name() {
    assert_eq!(DeDataType::from(&DataType::Object("foo")), DeDataType::Object("foo"));
    assert_ne!(DeDataType::from(&DataType::Object("foo")), DeDataType::Object("bar"));
}

#[test]
fn some_types_have_no_wire_form() {
    assert!(!DataType::UInt8.is_serializable());
    assert!(!DataType::UInt16.is_serializable());
    assert!(!DataType::Int8.is_serializable());
    assert!(!DataType::Int16.is_serializable());
    assert!(!DataType::Time64(TimeUnit::Second).is_serializable());
    assert!(!DataType::Time64(TimeUnit::Nanosecond).is_serializable());
    assert!(!DataType::Categorical.is_serializable());
    assert!(DataType::Boolean.is_serializable());
    assert!(DataType::UInt32.is_serializable());
    assert!(DataType::UInt64.is_serializable());
    assert!(DataType::Int32.is_serializable());
    assert!(DataType::Int64.is_serializable());
    assert!(DataType::Float32.is_serializable());
    assert!(DataType::Float64.is_serializable());
    assert!(DataType::Utf8.is_serializable());
    assert!(DataType::Date.is_serializable());
    assert!(DataType::Datetime.is_serializable());
    assert!(DataType::Object("foo").is_serializable());
    assert!(DataType::Null.is_serializable());
}

#[test]
fn a_type_is_cloned_with_what_it_holds() {
    let types = vec![
        DataType::Boolean,
        DataType::UInt8,
        DataType::UInt16,
        DataType::UInt32,
        DataType::UInt64,
        DataType::Int8,
        DataType::Int16,
        DataType::Int32,
        DataType::Int64,
        DataType::Float32,
        DataType::Float64,
        DataType::Utf8,
        DataType::Date,
        DataType::Datetime,
        DataType::Time64(TimeUnit::Millisecond),
        DataType::Time64(TimeUnit::Microsecond),
        DataType::List(Box::new(DataType::List(Box::new(DataType::Time64(TimeUnit::Second))))),
        DataType::Object("foo"),
        DataType::Null,
        DataType::Categorical,
    ];
    for dt in &types {
        assert_eq!(&dt.clone(), dt);
    }
    assert_ne!(DataType::List(Box::new(DataType::Int32)), DataType::List(Box::new(DataType::Int64)));
}

#[test]
fn a_field_has_a_name_and_a_type() {
    let field = Field::new("foo", DataType::List(Box::new(DataType::Boolean)));
    assert_eq!(field.name, "foo");
    assert_eq!(field.dtype, DataType::List(Box::new(DataType::Boolean)));
    assert_eq!(field.clone(), field);
}

#[test]
fn a_schema_finds_the_first_field_of_a_name() {
    let schema = Schema::new(vec![
        Field::new("a", DataType::Int32),
        Field::new("b", DataType::Utf8),
        Field::new("a", DataType::Boolean),
    ]);
    assert_eq!(schema.field_with_name("a"), Ok(&Field::new("a", DataType::Int32)));
    assert_eq!(schema.field_with_name("b"), Ok(&Field::new("b", DataType::Utf8)));
    assert_eq!(schema.field_with_name("c"), Err(EvaluationError::SchemaError));
    assert_eq!(Schema::new(vec![]).field_with_name("a"), Err(EvaluationError::SchemaError));
}

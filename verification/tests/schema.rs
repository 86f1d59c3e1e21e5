use data_skipping::expressions::ColumnName;
use data_skipping::scalars::PrimitiveType;
use data_skipping::schema::{get_stats_schema, is_referenced, DataType, StructField, StructType};

fn name(path: &[&str]) -> ColumnName {
    ColumnName::new(path.iter().map(|s| s.to_string()).collect())
}

fn primitive(name: &str, t: PrimitiveType) -> StructField {
    StructField::new(name, DataType::Primitive(t), true)
}

fn record(name: &str, fields: Vec<StructField>) -> StructField {
    StructField::new(name, DataType::struct_type(StructType::new(fields)), true)
}

fn table() -> StructType {
    StructType::new(vec![
        primitive("a", PrimitiveType::Integer),
        primitive("b", PrimitiveType::String),
        record(
            "s",
            vec![
                primitive("x", PrimitiveType::Double),
                record("t", vec![primitive("y", PrimitiveType::Date)]),
            ],
        ),
        StructField::new("c", DataType::Primitive(PrimitiveType::Boolean), false),
    ])
}

fn stats_of(minmax: Vec<StructField>, counts: Vec<StructField>) -> StructType {
    StructType::new(vec![
        primitive("numRecords", PrimitiveType::Long),
        primitive("tightBounds", PrimitiveType::Boolean),
        record("nullCount", counts),
        record("minValues", minmax.clone()),
        record("maxValues", minmax),
    ])
}

#[test]
fn stats_schema_of_one_column() {
    assert_eq!(
        get_stats_schema(&table(), &vec![name(&["a"])]),
        Some(stats_of(
            vec![primitive("a", PrimitiveType::Integer)],
            vec![primitive("a", PrimitiveType::Long)]
        ))
    );
}

#[test]
fn stats_schema_keeps_the_order_of_the_table() {
    let refs = vec![name(&["c"]), name(&["a"]), name(&["c"])];
    assert_eq!(
        get_stats_schema(&table(), &refs),
        Some(stats_of(
            vec![
                primitive("a", PrimitiveType::Integer),
                StructField::new("c", DataType::Primitive(PrimitiveType::Boolean), false),
            ],
            vec![
                primitive("a", PrimitiveType::Long),
                StructField::new("c", DataType::Primitive(PrimitiveType::Long), false),
            ]
        ))
    );
}

#[test]
fn stats_schema_field_order() {
    let schema = get_stats_schema(&table(), &vec![name(&["b"])]).unwrap();
    let names: Vec<&str> = schema.fields.iter().map(|f| f.name.as_str()).collect();
    assert_eq!(
        names,
        vec!["numRecords", "tightBounds", "nullCount", "minValues", "maxValues"]
    );
    assert!(schema.fields.iter().all(|f| f.nullable));
}

#[test]
fn null_counts_mirror_a_nested_column() {
    let nested = record(
        "s",
        vec![
            primitive("x", PrimitiveType::Double),
            record("t", vec![primitive("y", PrimitiveType::Date)]),
        ],
    );
    let counts = record(
        "s",
        vec![
            primitive("x", PrimitiveType::Long),
            record("t", vec![primitive("y", PrimitiveType::Long)]),
        ],
    );
    assert_eq!(
        get_stats_schema(&table(), &vec![name(&["s"])]),
        Some(stats_of(vec![nested], vec![counts]))
    );
    assert_eq!(
        table().null_counts(),
        StructType::new(vec![
            primitive("a", PrimitiveType::Long),
            primitive("b", PrimitiveType::Long),
            record(
                "s",
                vec![
                    primitive("x", PrimitiveType::Long),
                    record("t", vec![primitive("y", PrimitiveType::Long)]),
                ],
            ),
            StructField::new("c", DataType::Primitive(PrimitiveType::Long), false),
        ])
    );
    assert_eq!(
        DataType::Primitive(PrimitiveType::String).null_counts(),
        DataType::Primitive(PrimitiveType::Long)
    );
}

#[test]
fn nested_reference_matches_nothing() {
    assert_eq!(get_stats_schema(&table(), &vec![name(&["s", "x"])]), None);
    assert_eq!(
        get_stats_schema(&table(), &vec![name(&["s", "x"]), name(&["a"])]),
        Some(stats_of(
            vec![primitive("a", PrimitiveType::Integer)],
            vec![primitive("a", PrimitiveType::Long)]
        ))
    );
    assert_eq!(get_stats_schema(&table(), &vec![name(&["x"])]), None);
}

#[test]
fn no_reference_no_stats_schema() {
    assert_eq!(get_stats_schema(&table(), &vec![]), None);
    assert_eq!(get_stats_schema(&table(), &vec![name(&["z"])]), None);
    assert_eq!(get_stats_schema(&table(), &vec![name(&[])]), None);
    assert_eq!(
        get_stats_schema(&StructType::new(vec![]), &vec![name(&["a"])]),
        None
    );
}

#[test]
fn referenced_fields_of_a_table() {
    let refs = vec![name(&["b"]), name(&["a", "b"]), name(&["q"])];
    assert_eq!(
        table().referenced_fields(&refs),
        vec![primitive("b", PrimitiveType::String)]
    );
    assert!(is_referenced(&"b".to_string(), &refs));
    assert!(!is_referenced(&"a".to_string(), &refs));
    assert!(!is_referenced(&"q2".to_string(), &refs));
}

#[test]
fn field_lookup_by_name_and_type() {
    let t = table();
    assert!(t.has_field_of_type(&"a".to_string(), PrimitiveType::Integer));
    assert!(!t.has_field_of_type(&"a".to_string(), PrimitiveType::Long));
    assert!(!t.has_field_of_type(&"s".to_string(), PrimitiveType::Integer));
    assert!(!t.has_field_of_type(&"x".to_string(), PrimitiveType::Double));
    assert!(t.has_primitive_field(&"c".to_string()));
    assert!(!t.has_primitive_field(&"s".to_string()));
    assert!(!t.has_primitive_field(&"z".to_string()));
}

#[test]
fn column_of_a_type_without_literals() {
    let t = StructType::new(vec![
        primitive("price", PrimitiveType::Decimal(10, 2)),
        primitive("ratio", PrimitiveType::Double),
    ]);
    assert!(t.has_field_of_type(&"price".to_string(), PrimitiveType::Decimal(10, 2)));
    assert!(!t.has_field_of_type(&"price".to_string(), PrimitiveType::Decimal(10, 3)));
    assert_eq!(
        get_stats_schema(&t, &vec![name(&["price"])]),
        Some(stats_of(
            vec![primitive("price", PrimitiveType::Decimal(10, 2))],
            vec![primitive("price", PrimitiveType::Long)]
        ))
    );
}

#[test]
fn schema_copies_are_equal() {
    let t = table();
    assert_eq!(t.duplicate(), t);
    assert_eq!(t.clone(), t);
    assert_eq!(t.fields[2].clone(), t.fields[2]);
    assert_eq!(t.fields[2].data_type.clone(), t.fields[2].data_type);
}

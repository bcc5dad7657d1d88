use cache::batch::create_empty_columns;
use cache::batch::extract_rows;
use cache::batch::first_row;
use cache::batch::get_value_at;
use cache::batch::is_finite_bits;
use cache::batch::Batch;
use cache::batch::Column;
use cache::error::CacheError;
use cache::row::Value;
use cache::schema::DataType;
use cache::schema::Field;
use cache::schema::Schema;

fn users_schema() -> Schema {
    Schema::new(vec![
        Field::new("id", DataType::Int64, false),
        Field::new("name", DataType::Utf8, false),
        Field::new("amount", DataType::Float64, false),
    ])
}

fn users_batch(ids: Vec<i64>, names: Vec<&str>, amounts: Vec<f64>) -> Batch {
    Batch::try_new(
        users_schema(),
        vec![
            Column::Int64(ids),
            Column::Utf8(names.into_iter().map(String::from).collect()),
            Column::Float64(amounts.into_iter().map(f64::to_bits).collect()),
        ],
    )
    .unwrap()
}

#[test]
fn get_value_at_reads_each_supported_type() {
    assert_eq!(
        get_value_at(&Column::Boolean(vec![false, true]), 1).unwrap(),
        Value::Bool(true)
    );
    assert_eq!(
        get_value_at(&Column::Int32(vec![7, -30]), 1).unwrap(),
        Value::Int(-30)
    );
    assert_eq!(
        get_value_at(&Column::Int64(vec![1234567890]), 0).unwrap(),
        Value::Int(1234567890)
    );
    assert_eq!(
        get_value_at(&Column::UInt64(vec![0, u64::MAX]), 1).unwrap(),
        Value::UInt(u64::MAX)
    );
    assert_eq!(
        get_value_at(&Column::Float64(vec![200.75f64.to_bits()]), 0).unwrap(),
        Value::Float(200.75f64.to_bits())
    );
    assert_eq!(
        get_value_at(&Column::Utf8(vec!["Alice".to_string(), "Bob".to_string()]), 1).unwrap(),
        Value::Text("Bob".to_string())
    );
}

#[test]
fn get_value_at_reads_a_double_that_is_not_finite_as_null() {
    let column = Column::Float64(vec![
        f64::NAN.to_bits(),
        f64::INFINITY.to_bits(),
        f64::NEG_INFINITY.to_bits(),
        f64::MAX.to_bits(),
        (-0.0f64).to_bits(),
    ]);
    assert_eq!(get_value_at(&column, 0).unwrap(), Value::Null);
    assert_eq!(get_value_at(&column, 1).unwrap(), Value::Null);
    assert_eq!(get_value_at(&column, 2).unwrap(), Value::Null);
    assert_eq!(get_value_at(&column, 3).unwrap(), Value::Float(f64::MAX.to_bits()));
    assert_eq!(get_value_at(&column, 4).unwrap(), Value::Float(0x8000_0000_0000_0000));
}

#[test]
fn finite_bits_agree_with_the_floats() {
    for x in [0.0f64, -1.5, 100.50, f64::MIN_POSITIVE, f64::MAX, f64::MIN, 5e-324] {
        assert!(is_finite_bits(x.to_bits()), "{x}");
    }
    for x in [f64::NAN, f64::INFINITY, f64::NEG_INFINITY] {
        assert!(!is_finite_bits(x.to_bits()), "{x}");
    }
    assert!(is_finite_bits(0x7fef_ffff_ffff_ffff));
    assert!(!is_finite_bits(0x7ff0_0000_0000_0000));
    assert!(!is_finite_bits(0xfff8_0000_0000_0001));
}

#[test]
fn get_value_at_names_the_type_of_a_column_that_cannot_be_read() {
    let column = Column::Opaque {
        data_type: DataType::Other("Decimal128(10, 2)".to_string()),
        len: 3,
    };
    assert_eq!(
        get_value_at(&column, 0).unwrap_err(),
        CacheError::UnsupportedType { data_type: "Decimal128(10, 2)".to_string() }
    );
    let column = Column::Opaque { data_type: DataType::Float32, len: 1 };
    assert_eq!(
        get_value_at(&column, 0).unwrap_err().message(),
        "Unsupported data type: Float32"
    );
    let empty = Column::Opaque { data_type: DataType::UInt32, len: 0 };
    for index in [0, 1, usize::MAX] {
        assert_eq!(
            get_value_at(&empty, index).unwrap_err(),
            CacheError::UnsupportedType { data_type: "UInt32".to_string() }
        );
    }
}

#[test]
fn create_empty_columns_gives_one_empty_column_for_each_field() {
    let schema = Schema::new(vec![
        Field::new("key", DataType::Utf8, false),
        Field::new("value", DataType::Utf8, false),
        Field::new("timestamp", DataType::Int64, false),
        Field::new("is_deleted", DataType::Boolean, false),
        Field::new("count", DataType::Int32, true),
        Field::new("total", DataType::UInt64, true),
        Field::new("ratio", DataType::Float64, true),
    ]);
    let columns = create_empty_columns(&schema).unwrap();
    assert_eq!(
        columns,
        vec![
            Column::Utf8(vec![]),
            Column::Utf8(vec![]),
            Column::Int64(vec![]),
            Column::Boolean(vec![]),
            Column::Int32(vec![]),
            Column::UInt64(vec![]),
            Column::Float64(vec![]),
        ]
    );
}

#[test]
fn create_empty_columns_rejects_the_first_unsupported_type() {
    let schema = Schema::new(vec![
        Field::new("id", DataType::Int32, false),
        Field::new("ratio", DataType::Float32, false),
        Field::new("when", DataType::Other("Date32".to_string()), false),
    ]);
    assert_eq!(
        create_empty_columns(&schema).unwrap_err(),
        CacheError::UnsupportedType { data_type: "Float32".to_string() }
    );
    assert_eq!(create_empty_columns(&Schema::new(vec![])).unwrap(), vec![]);
}

#[test]
fn try_new_checks_count_type_and_height() {
    let too_few = Batch::try_new(users_schema(), vec![Column::Int64(vec![1])]);
    assert_eq!(too_few.unwrap_err(), CacheError::SchemaMismatch { column: 1 });

    let wrong_type = Batch::try_new(
        users_schema(),
        vec![
            Column::Int64(vec![1]),
            Column::Int64(vec![2]),
            Column::Float64(vec![0]),
        ],
    );
    assert_eq!(wrong_type.unwrap_err(), CacheError::SchemaMismatch { column: 1 });

    let wrong_height = Batch::try_new(
        users_schema(),
        vec![
            Column::Int64(vec![1, 2]),
            Column::Utf8(vec!["a".to_string(), "b".to_string()]),
            Column::Float64(vec![0]),
        ],
    );
    assert_eq!(wrong_height.unwrap_err(), CacheError::SchemaMismatch { column: 2 });

    let opaque_but_supported = Batch::try_new(
        Schema::new(vec![Field::new("id", DataType::Int64, false)]),
        vec![Column::Opaque { data_type: DataType::Int64, len: 0 }],
    );
    assert_eq!(
        opaque_but_supported.unwrap_err(),
        CacheError::SchemaMismatch { column: 0 }
    );

    let batch = users_batch(vec![1, 2], vec!["Alice", "Bob"], vec![100.50, 200.75]);
    assert_eq!(batch.num_rows(), 2);
    assert_eq!(batch.num_columns(), 3);
    assert_eq!(batch.column_name(2), "amount");
    assert_eq!(batch.column(0), &Column::Int64(vec![1, 2]));
    assert_eq!(batch.schema(), &users_schema());

    let empty = Batch::try_new(Schema::new(vec![]), vec![]).unwrap();
    assert_eq!(empty.num_rows(), 0);
}

#[test]
fn extract_rows_goes_batch_by_batch_and_top_to_bottom() {
    let batches = vec![
        users_batch(vec![1, 2], vec!["Alice", "Bob"], vec![100.50, 200.75]),
        users_batch(vec![], vec![], vec![]),
        users_batch(vec![3], vec!["Charlie"], vec![350.25]),
    ];
    let rows = extract_rows(&batches).unwrap();
    assert_eq!(rows.len(), 3);
    let names: Vec<&Value> = rows.iter().map(|r| r.get("name").unwrap()).collect();
    assert_eq!(
        names,
        vec![
            &Value::Text("Alice".to_string()),
            &Value::Text("Bob".to_string()),
            &Value::Text("Charlie".to_string()),
        ]
    );
    assert_eq!(rows[2].len(), 3);
    assert_eq!(rows[2].name_at(0), "id");
    assert_eq!(rows[2].value_at(0), &Value::Int(3));
    assert_eq!(rows[2].name_at(2), "amount");
    assert_eq!(rows[2].value_at(2), &Value::Float(350.25f64.to_bits()));
    assert_eq!(extract_rows(&vec![]).unwrap().len(), 0);
}

#[test]
fn extract_rows_reads_the_later_of_two_columns_of_one_name() {
    let batch = Batch::try_new(
        Schema::new(vec![
            Field::new("x", DataType::Int32, false),
            Field::new("y", DataType::Int32, false),
            Field::new("x", DataType::Utf8, false),
        ]),
        vec![
            Column::Int32(vec![1]),
            Column::Int32(vec![2]),
            Column::Utf8(vec!["three".to_string()]),
        ],
    )
    .unwrap();
    let rows = extract_rows(&vec![batch]).unwrap();
    assert_eq!(rows[0].len(), 2);
    assert_eq!(rows[0].name_at(0), "x");
    assert_eq!(rows[0].get("x"), Some(&Value::Text("three".to_string())));
    assert_eq!(rows[0].get("y"), Some(&Value::Int(2)));
}

#[test]
fn extract_rows_fails_whole_on_an_unsupported_column() {
    let readable = users_batch(vec![1], vec!["Alice"], vec![100.50]);
    let unreadable = Batch::try_new(
        Schema::new(vec![
            Field::new("id", DataType::Int64, false),
            Field::new("amount", DataType::Other("Decimal128(10, 2)".to_string()), false),
            Field::new("small", DataType::UInt32, false),
        ]),
        vec![
            Column::Int64(vec![]),
            Column::Opaque {
                data_type: DataType::Other("Decimal128(10, 2)".to_string()),
                len: 0,
            },
            Column::Opaque { data_type: DataType::UInt32, len: 0 },
        ],
    )
    .unwrap();
    let err = extract_rows(&vec![readable, unreadable]).unwrap_err();
    assert_eq!(
        err,
        CacheError::UnsupportedType { data_type: "Decimal128(10, 2)".to_string() }
    );
}

#[test]
fn first_row_looks_at_the_first_batch_with_rows_only() {
    let unreadable_and_empty = Batch::try_new(
        Schema::new(vec![Field::new("d", DataType::Other("Date32".to_string()), false)]),
        vec![Column::Opaque { data_type: DataType::Other("Date32".to_string()), len: 0 }],
    )
    .unwrap();
    let unreadable = Batch::try_new(
        Schema::new(vec![Field::new("d", DataType::Other("Date32".to_string()), false)]),
        vec![Column::Opaque { data_type: DataType::Other("Date32".to_string()), len: 2 }],
    )
    .unwrap();
    let batches = vec![
        unreadable_and_empty,
        users_batch(vec![], vec![], vec![]),
        users_batch(vec![2, 1], vec!["Bob", "Alice"], vec![200.75, 100.50]),
        unreadable,
    ];
    let row = first_row(&batches).unwrap().unwrap();
    assert_eq!(row.get("id"), Some(&Value::Int(2)));
    assert_eq!(row.get("name"), Some(&Value::Text("Bob".to_string())));

    assert_eq!(first_row(&vec![]).unwrap(), None);
    assert_eq!(first_row(&vec![users_batch(vec![], vec![], vec![])]).unwrap(), None);

    let unreadable = Batch::try_new(
        Schema::new(vec![Field::new("d", DataType::Other("Date32".to_string()), false)]),
        vec![Column::Opaque { data_type: DataType::Other("Date32".to_string()), len: 2 }],
    )
    .unwrap();
    assert_eq!(
        first_row(&vec![unreadable]).unwrap_err(),
        CacheError::UnsupportedType { data_type: "Date32".to_string() }
    );
}

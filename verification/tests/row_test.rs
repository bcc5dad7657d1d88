use cache::error::CacheError;
use cache::row::admit_row;
use cache::row::decode_rows;
use cache::row::Row;
use cache::row::RowCodec;
use cache::row::Value;

#[test]
fn a_row_keeps_each_name_once_in_the_order_of_first_insertion() {
    let mut row = Row::new();
    assert_eq!(row.len(), 0);
    row.insert("name".to_string(), Value::Text("Alice".to_string()));
    row.insert("amount".to_string(), Value::Float(100.50f64.to_bits()));
    row.insert("name".to_string(), Value::Text("Bob".to_string()));
    assert_eq!(row.len(), 2);
    assert_eq!(row.name_at(0), "name");
    assert_eq!(row.value_at(0), &Value::Text("Bob".to_string()));
    assert_eq!(row.name_at(1), "amount");
    assert_eq!(row.get("amount"), Some(&Value::Float(100.50f64.to_bits())));
    assert_eq!(row.get("Name"), None);
    assert_eq!(row.duplicate(), row);
}

#[test]
fn a_row_is_its_own_row_type() {
    let mut row = Row::new();
    row.insert("id".to_string(), Value::Int(-4));
    row.insert("ok".to_string(), Value::Bool(true));
    let decoded = <Row as RowCodec>::decode(&row).unwrap();
    assert_eq!(decoded, row);
    assert_eq!(decoded.encode(), row);
    assert_eq!(Value::UInt(7).duplicate(), Value::UInt(7));
}

#[test]
fn no_row_decodes_into_the_unit_type() {
    let cause = <() as RowCodec>::decode(&Row::new()).unwrap_err();
    assert_eq!(cause, "the unit type holds no row");
    assert_eq!(().encode().len(), 0);
    let rows = vec![Row::new(), Row::new()];
    assert_eq!(
        decode_rows::<()>(&rows).unwrap_err(),
        CacheError::RowDecode {
            row_index: 0,
            cause: "the unit type holds no row".to_string(),
        }
    );
    assert_eq!(decode_rows::<()>(&vec![]).unwrap(), vec![]);
}

#[test]
fn admit_row_appends_a_value_and_returns_a_cause_as_the_failure() {
    let mut results: Vec<u8> = vec![1];
    assert!(admit_row(&mut results, 1, Ok(2)).is_ok());
    assert_eq!(results, vec![1, 2]);
    let err = admit_row(&mut results, 2, Err("missing field `id`".to_string())).unwrap_err();
    assert_eq!(
        err,
        CacheError::RowDecode { row_index: 2, cause: "missing field `id`".to_string() }
    );
    assert_eq!(err.message(), "Row decode error: missing field `id`");
    assert_eq!(results, vec![1, 2]);
}

use std::str::FromStr;
use trailbase::records::SqlValue;
use trailbase::sqlite::{Column, RowError, Rows, ValueType};

#[test]
fn declared_types_parse() {
    assert_eq!(ValueType::from_str("TEXT"), Ok(ValueType::Text));
    assert_eq!(ValueType::from_decl_type("INTEGER"), Some(ValueType::Integer));
    assert_eq!(ValueType::from_decl_type("BLOB"), Some(ValueType::Blob));
    assert_eq!(ValueType::from_decl_type("REAL"), Some(ValueType::Real));
    assert_eq!(ValueType::from_decl_type("NULL"), Some(ValueType::Null));
    assert_eq!(ValueType::from_decl_type("text"), None);
}

#[test]
fn rows_share_columns() {
    let cols = vec![Column::new("id".to_string(), Some("INTEGER")), Column::new("x".to_string(), None)];
    let rows = Rows::from_values(cols, vec![vec![SqlValue::Integer(1), SqlValue::Null], vec![SqlValue::Integer(2), SqlValue::Null]]);
    assert_eq!(rows.len(), 2);
    assert_eq!(rows.column_count(), 2);
    assert_eq!(rows.column_names(), vec!["id".to_string(), "x".to_string()]);
    assert_eq!(rows.column_name(1), Some("x"));
    assert_eq!(rows.column_name(2), None);
    assert_eq!(rows.column_type(0).unwrap(), ValueType::Integer);
    assert!(matches!(rows.column_type(1), Err(RowError::InvalidColumnType(1, n)) if n == "x"));
    assert!(matches!(rows.column_type(5), Err(RowError::InvalidColumnType(5, n)) if n == "?"));
    let row = rows.get(1).unwrap();
    assert!(matches!(row.get_value(0), Ok(SqlValue::Integer(2))));
    assert!(matches!(row.get_value(2), Err(RowError::IndexOutOfBounds(2))));
    assert_eq!(row.column_count(), 2);
    assert_eq!(row.column_name(0), Some("id"));
}

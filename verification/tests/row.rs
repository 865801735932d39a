use rstream::row::RawRow;

#[test]
fn a_new_row_has_no_columns() {
    let row = RawRow::new();
    assert!(row.get("id").is_none());
    assert!(!row.contains("id"));
    assert!(row.entries().is_empty());
}

#[test]
fn insert_sets_a_column() {
    let mut row = RawRow::new();
    row.insert("id".to_string(), "k".to_string());
    row.insert("path".to_string(), "/a".to_string());
    assert_eq!(row.get("id").unwrap(), "k");
    assert_eq!(row.get("path").unwrap(), "/a");
    assert!(row.get("ID").is_none());
    assert!(row.contains("path"));
    assert_eq!(row.entries().len(), 2);
}

#[test]
fn insert_replaces_a_column_of_the_same_name() {
    let mut row = RawRow::new();
    row.insert("id".to_string(), "k".to_string());
    row.insert("path".to_string(), "/a".to_string());
    row.insert("id".to_string(), "other".to_string());
    assert_eq!(row.get("id").unwrap(), "other");
    assert_eq!(row.get("path").unwrap(), "/a");
    assert_eq!(row.entries().len(), 2);
    assert_eq!(row.entries()[0], ("id".to_string(), "other".to_string()));
}

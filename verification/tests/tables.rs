use inspektor::tables::{get_table_info, ColumnRow, TableInfo, TABLE_INFO_QUERY};

fn row(table: &str, column: &str) -> ColumnRow {
    ColumnRow {
        table_name: table.to_string(),
        column_name: column.to_string(),
    }
}

#[test]
fn columns_are_gathered_by_table_in_order() {
    let info = get_table_info(vec![
        row("users", "id"),
        row("orders", "id"),
        row("users", "name"),
        row("orders", "total"),
        row("users", "id"),
    ]);
    assert_eq!(
        info.get(&"users".to_string()).unwrap(),
        &vec!["id".to_string(), "name".to_string(), "id".to_string()]
    );
    assert_eq!(
        info.get(&"orders".to_string()).unwrap(),
        &vec!["id".to_string(), "total".to_string()]
    );
    assert!(info.get(&"other".to_string()).is_none());
}

#[test]
fn no_rows_make_no_tables() {
    let info = get_table_info(vec![]);
    assert!(info.get(&"users".to_string()).is_none());
}

#[test]
fn a_column_is_added_behind_the_others() {
    let mut info = TableInfo::new();
    info.add_column("t".to_string(), "a".to_string());
    info.add_column("t".to_string(), "b".to_string());
    assert_eq!(
        info.get(&"t".to_string()).unwrap(),
        &vec!["a".to_string(), "b".to_string()]
    );
}

#[test]
fn the_question_leaves_out_the_systems_own_tables() {
    assert!(TABLE_INFO_QUERY.contains("NOT IN ('pg_catalog', 'information_schema')"));
    assert!(TABLE_INFO_QUERY.contains("table_name !~ '^pg_'"));
}

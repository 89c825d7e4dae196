use csv2sqlite::sql::{
    add_row, build_placeholder, create_table, create_table_statement, get_last_rowid, insert_statement, join,
    next_rowid, pad_row, quote_identifier, Store,
};
use rusqlite::Connection;

fn rows_in(conn: &Connection, sql: &str) -> Vec<Vec<String>> {
    let mut stmt = conn.prepare(sql).unwrap();
    let n = stmt.column_count();
    let rows = stmt
        .query_map([], |r| {
            let mut out = Vec::new();
            for i in 0..n {
                let v: rusqlite::types::Value = r.get(i)?;
                out.push(match v {
                    rusqlite::types::Value::Null => String::from("NULL"),
                    rusqlite::types::Value::Integer(k) => k.to_string(),
                    rusqlite::types::Value::Text(t) => t,
                    other => format!("{:?}", other),
                });
            }
            Ok(out)
        })
        .unwrap();
    rows.map(|r| r.unwrap()).collect()
}

#[test]
fn placeholders_are_comma_separated() {
    assert_eq!(build_placeholder(3), "?, ?, ?");
    assert_eq!(build_placeholder(1), "?");
    assert_eq!(build_placeholder(0), "");
}

#[test]
fn pad_row_fills_with_pad() {
    assert_eq!(pad_row(&["x", "y"], "", 3), vec!["x", "y", ""]);
    assert_eq!(pad_row(&["x", "y"], "-", 1), vec!["x", "y"]);
    assert_eq!(pad_row(&[], "p", 2), vec!["p", "p"]);
}

#[test]
fn identifiers_are_quoted_and_escaped() {
    assert_eq!(quote_identifier("a b"), "\"a b\"");
    assert_eq!(quote_identifier("say \"hi\""), "\"say \"\"hi\"\"\"");
    assert_eq!(join(&vec![String::from("a"), String::from("b")], ", "), "a, b");
}

#[test]
fn create_statement_text() {
    assert_eq!(
        create_table_statement("people", &vec![("name", "TEXT"), ("age", "TEXT")]),
        "CREATE TABLE IF NOT EXISTS \"people\" (\"id\" INTEGER PRIMARY KEY AUTOINCREMENT, \"name\" TEXT, \"age\" TEXT);"
    );
    assert_eq!(
        create_table_statement("t", &vec![]),
        "CREATE TABLE IF NOT EXISTS \"t\" (\"id\" INTEGER PRIMARY KEY AUTOINCREMENT);"
    );
}

#[test]
fn insert_statement_text() {
    assert_eq!(
        insert_statement("t", &vec![String::from("a"), String::from("b")], 2, ""),
        "INSERT INTO \"t\" (\"a\", \"b\") VALUES (?, ?) ;"
    );
}

#[test]
fn create_table_twice_is_harmless() {
    let mut store = Store::new(Connection::open_in_memory().unwrap());
    assert!(create_table(&mut store, "t", vec![("a", "TEXT")]).is_ok());
    assert!(create_table(&mut store, "t", vec![("a", "TEXT")]).is_ok());
    let tables = rows_in(store.connection(), "SELECT name FROM sqlite_master WHERE type = 'table' AND name = 't'");
    assert_eq!(tables, vec![vec!["t"]]);
}

#[test]
fn short_rows_are_padded_with_empty_text() {
    let mut store = Store::new(Connection::open_in_memory().unwrap());
    create_table(&mut store, "t", vec![("a", "TEXT"), ("b", "TEXT"), ("c", "TEXT")]).unwrap();
    assert!(add_row(&mut store, "t", &["a", "b", "c"], &["x", "y"], None).is_ok());
    let rows = rows_in(store.connection(), "SELECT id, a, b, c FROM t");
    assert_eq!(rows, vec![vec!["1", "x", "y", ""]]);
}

#[test]
fn wider_rows_than_columns_fail() {
    let mut store = Store::new(Connection::open_in_memory().unwrap());
    create_table(&mut store, "t", vec![("a", "TEXT")]).unwrap();
    assert!(add_row(&mut store, "t", &["a"], &["1", "2"], None).is_err());
}

#[test]
fn next_rowid_follows_last() {
    assert_eq!(next_rowid(5), 6);
    assert_eq!(next_rowid(0), 1);
    assert_eq!(next_rowid(-3), 0);
    assert_eq!(next_rowid(2147483647), 2147483648);
    assert_eq!(next_rowid(2147483648), 0);
}

#[test]
fn last_rowid_after_inserts() {
    let mut store = Store::new(Connection::open_in_memory().unwrap());
    assert_eq!(get_last_rowid(store.connection()), 1);
    create_table(&mut store, "t", vec![("a", "TEXT")]).unwrap();
    add_row(&mut store, "t", &["a"], &["1"], None).unwrap();
    add_row(&mut store, "t", &["a"], &["2"], None).unwrap();
    assert_eq!(get_last_rowid(store.connection()), 3);
}

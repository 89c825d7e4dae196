use csv2sqlite::cli::{has_data_suffix, index_column_valid, permissible_suffix, table_name_for, Arguments};
use csv2sqlite::csvcache::CSVCache;
use csv2sqlite::sql::{create_table, Store};
use csv2sqlite::writer::{
    add_row_with_index, populate_table, prepend_index, records_written, resolve_columns, write_rows,
};
use rusqlite::Connection;

fn args(input: &str, use_header: bool, table_name: Option<&str>) -> Arguments {
    Arguments {
        input: String::from(input),
        output: None,
        append: false,
        index_column: Some(String::from("auto")),
        use_header,
        delimiter: ',',
        table_name: table_name.map(String::from),
        default_column_name: String::from("column"),
    }
}

fn text_rows(conn: &Connection, sql: &str) -> Vec<Vec<String>> {
    let mut stmt = conn.prepare(sql).unwrap();
    let n = stmt.column_count();
    let rows = stmt
        .query_map([], |r| {
            let mut out = Vec::new();
            for i in 0..n {
                let v: rusqlite::types::Value = r.get(i)?;
                out.push(match v {
                    rusqlite::types::Value::Integer(k) => k.to_string(),
                    rusqlite::types::Value::Text(t) => t,
                    other => format!("{:?}", other),
                });
            }
            Ok(out)
        })
        .unwrap();
    rows.map(|r| r.unwrap()).collect()
}

fn import(store: &mut Store, table: &str, cache: &CSVCache) -> Vec<Result<(), rusqlite::Error>> {
    let descs = cache.column_descs();
    let columns: Vec<(&str, &str)> = descs.iter().map(|d| (d.0.as_str(), d.1.as_str())).collect();
    create_table(store, table, columns).unwrap();
    let names: Vec<&str> = descs.iter().map(|d| d.0.as_str()).collect();
    let rows: Vec<Vec<String>> = cache.rows_iter().cloned().collect();
    write_rows(store, table, &names, &rows)
}

#[test]
fn ragged_file_with_header_end_to_end() {
    let cache = CSVCache::load(&args("people.csv", true, None), b"name,age\nAlice,30\nBob");
    let mut store = Store::new(Connection::open_in_memory().unwrap());
    let outcomes = import(&mut store, "people", &cache);
    assert_eq!(records_written(&outcomes), 2);
    let columns = text_rows(store.connection(), "SELECT name FROM pragma_table_info('people') ORDER BY cid");
    assert_eq!(columns, vec![vec!["id"], vec!["name"], vec!["age"]]);
    let rows = text_rows(store.connection(), "SELECT id, name, age FROM people ORDER BY id");
    assert_eq!(rows, vec![vec!["1", "Alice", "30"], vec!["2", "Bob", ""]]);
}

#[test]
fn headerless_file_gets_generated_columns() {
    let cache = CSVCache::load(&args("n.csv", false, None), b"1,2\n3,4\n");
    let mut store = Store::new(Connection::open_in_memory().unwrap());
    let outcomes = import(&mut store, "n", &cache);
    assert_eq!(records_written(&outcomes), 2);
    let columns = text_rows(store.connection(), "SELECT name FROM pragma_table_info('n') ORDER BY cid");
    assert_eq!(columns, vec![vec!["id"], vec!["column1"], vec!["column2"]]);
}

#[test]
fn failed_row_does_not_stop_the_rest() {
    let mut store = Store::new(Connection::open_in_memory().unwrap());
    create_table(&mut store, "t", vec![("a", "TEXT"), ("b", "TEXT")]).unwrap();
    let rows = vec![
        vec![String::from("1"), String::from("2")],
        vec![String::from("1"), String::from("2"), String::from("3")],
        vec![String::from("4"), String::from("5")],
    ];
    let outcomes = write_rows(&mut store, "t", &vec!["a", "b"], &rows);
    assert_eq!(outcomes.len(), 3);
    assert!(outcomes[0].is_ok());
    assert!(outcomes[1].is_err());
    assert!(outcomes[2].is_ok());
    assert_eq!(records_written(&outcomes), 2);
    let stored = text_rows(store.connection(), "SELECT a, b FROM t ORDER BY id");
    assert_eq!(stored, vec![vec!["1", "2"], vec!["4", "5"]]);
}

#[test]
fn populate_counts_written_records() {
    let mut store = Store::new(Connection::open_in_memory().unwrap());
    create_table(&mut store, "t", vec![("a", "TEXT"), ("b", "TEXT")]).unwrap();
    let records = vec![vec!["1", "2"], vec![], vec!["3"], vec!["4", "5", "6"]];
    let written = populate_table(&mut store, "t", None, records, &vec!["a", "b"], "column");
    assert_eq!(written.unwrap(), 2);
    let stored = text_rows(store.connection(), "SELECT a, b FROM t ORDER BY id");
    assert_eq!(stored, vec![vec!["1", "2"], vec!["3", ""]]);
}

#[test]
fn unnamed_columns_get_generated_names() {
    assert_eq!(resolve_columns(&vec!["a", ""], 3, "col"), vec!["a", "col2", "col3"]);
    assert!(resolve_columns(&vec!["a"], 0, "col").is_empty());
}

#[test]
fn index_column_goes_first() {
    let (c, v) = prepend_index(vec!["a"], vec!["1"], Some(("idx", "9")));
    assert_eq!(c, vec!["idx", "a"]);
    assert_eq!(v, vec!["9", "1"]);
    let (c, v) = prepend_index(vec!["a"], vec!["1"], None);
    assert_eq!(c, vec!["a"]);
    assert_eq!(v, vec!["1"]);
    let mut store = Store::new(Connection::open_in_memory().unwrap());
    create_table(&mut store, "t", vec![("idx", "TEXT"), ("a", "TEXT")]).unwrap();
    assert!(add_row_with_index(&mut store, "t", vec!["a"], vec!["1"], "column", Some(("idx", "9"))).is_ok());
    assert_eq!(text_rows(store.connection(), "SELECT idx, a FROM t"), vec![vec!["9", "1"]]);
}

#[test]
fn suffixes_in_any_case() {
    assert!(permissible_suffix("DATA.CSV"));
    assert!(permissible_suffix("x.Tsv"));
    assert!(!permissible_suffix("x.txt"));
    assert!(!permissible_suffix("csv"));
    assert!(has_data_suffix("a.csv"));
    assert!(!has_data_suffix("a.CSV"));
}

#[test]
fn table_name_from_file_or_option() {
    assert_eq!(table_name_for(&args("dir/people.csv", true, None)), Some(String::from("people")));
    assert_eq!(table_name_for(&args("dir/people.csv", true, Some("t"))), Some(String::from("t")));
    assert_eq!(table_name_for(&args("archive.tar.gz", true, None)), Some(String::from("archive.tar")));
}

#[test]
fn index_column_must_exist() {
    let header = vec!["name", "age"];
    assert!(index_column_valid(&None, &header));
    assert!(index_column_valid(&Some(String::from("auto")), &header));
    assert!(index_column_valid(&Some(String::from("age")), &header));
    assert!(!index_column_valid(&Some(String::from("zip")), &header));
}

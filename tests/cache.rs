use csv2sqlite::cli::Arguments;
use csv2sqlite::csvcache::CSVCache;
use csv2sqlite::naming::generated_column_name;

fn args(use_header: bool, delimiter: char, prefix: &str) -> Arguments {
    Arguments {
        input: String::from("data.csv"),
        output: None,
        append: false,
        index_column: Some(String::from("auto")),
        use_header,
        delimiter,
        table_name: None,
        default_column_name: String::from(prefix),
    }
}

fn rows_of(cache: &CSVCache) -> Vec<Vec<String>> {
    cache.rows_iter().cloned().collect()
}

#[test]
fn round_trip_pads_header() {
    let cache = CSVCache::load(&args(true, ',', "column"), b"a,b\n1,2,3\n");
    assert_eq!(cache.header(), vec!["a", "b", "column3"]);
    assert_eq!(cache.longest_row(), 3);
    assert_eq!(rows_of(&cache), vec![vec!["1", "2", "3"]]);
}

#[test]
fn column_count_covers_header_and_rows() {
    let cache = CSVCache::load(&args(true, ',', "c"), b"x\n1,2\n1,2,3,4\n5\n");
    let widest = cache.longest_row();
    assert_eq!(widest, 4);
    assert!(cache.header().len() <= widest);
    for row in cache.rows_iter() {
        assert!(row.len() <= widest);
    }
    assert_eq!(cache.header(), vec!["x", "c2", "c3", "c4"]);
}

#[test]
fn records_without_fields_are_dropped() {
    let records = vec![
        Some(vec![]),
        Some(vec![String::from("x")]),
        None,
        Some(vec![String::from("y"), String::from("z")]),
    ];
    let cache = CSVCache::from_records(None, records, "col");
    assert_eq!(rows_of(&cache), vec![vec!["x"], vec!["y", "z"]]);
    assert_eq!(cache.longest_row(), 2);
    assert!(cache.header().is_empty());
}

#[test]
fn blank_lines_are_not_rows() {
    let cache = CSVCache::load(&args(false, ',', "column"), b"1,2\n\n\n3,4\n");
    assert_eq!(rows_of(&cache), vec![vec!["1", "2"], vec!["3", "4"]]);
}

#[test]
fn headerless_mode_has_no_header() {
    let cache = CSVCache::load(&args(false, ',', "column"), b"a,b\n1,2\n");
    assert!(cache.header().is_empty());
    assert_eq!(rows_of(&cache).len(), 2);
    assert_eq!(cache.column_desc(0), (String::from("column1"), String::from("TEXT")));
    assert_eq!(cache.column_desc(1), (String::from("column2"), String::from("TEXT")));
}

#[test]
fn column_desc_uses_header_then_prefix() {
    let a = CSVCache::load(&args(true, ',', "column"), b"name\nx\n");
    let b = CSVCache::load(&args(true, ',', "field_"), b"name\nx\n");
    assert_eq!(a.column_desc(0), b.column_desc(0));
    assert_eq!(a.column_desc(0), a.column_desc(0));
    assert_eq!(a.column_desc(0).0, "name");
    assert_eq!(a.column_desc(4).0, "column5");
    assert_eq!(b.column_desc(4).0, "field_5");
}

#[test]
fn column_descs_name_every_column() {
    let cache = CSVCache::load(&args(true, ',', "column"), b"a\n1,2\n");
    let names: Vec<String> = cache.column_descs().into_iter().map(|d| d.0).collect();
    assert_eq!(names, vec!["a", "column2"]);
}

#[test]
fn nth_in_rows_marks_short_rows() {
    let cache = CSVCache::load(&args(false, ',', "column"), b"a,b\nc\n");
    assert_eq!(cache.get_nth_in_rows(1), vec![Some("b"), None]);
    assert_eq!(cache.get_nth_in_rows(0), vec![Some("a"), Some("c")]);
    assert_eq!(cache.get_nth_in_rows(2), vec![None, None]);
    assert!(cache.get_nth_in_rows(3).is_empty());
}

#[test]
fn comment_lines_and_other_delimiters() {
    let cache = CSVCache::load(&args(true, '\t', "column"), b"# a note\nk\tv\n1\t2\n");
    assert_eq!(cache.header(), vec!["k", "v"]);
    assert_eq!(rows_of(&cache), vec![vec!["1", "2"]]);
}

#[test]
fn empty_input_gives_empty_cache() {
    let cache = CSVCache::load(&args(true, ',', "column"), b"");
    assert!(cache.header().is_empty());
    assert_eq!(cache.longest_row(), 0);
    assert!(rows_of(&cache).is_empty());
    assert!(cache.column_descs().is_empty());
}

#[test]
fn default_cache_is_empty() {
    let cache = CSVCache::default();
    assert!(cache.header().is_empty());
    assert_eq!(cache.longest_row(), 0);
    assert!(rows_of(&cache).is_empty());
    assert_eq!(cache.column_desc(0).0, "1");
}

#[test]
fn generated_names_are_one_based() {
    assert_eq!(generated_column_name("column", 19), "column20");
    assert_eq!(generated_column_name("c", 0), "c1");
    assert_eq!(generated_column_name("", 99), "100");
}

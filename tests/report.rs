use wordcount::config::Config;
use wordcount::report::{build_table, decimal_string};

fn args(items: &[&str]) -> Vec<String> {
    items.iter().map(|s| s.to_string()).collect()
}

#[test]
fn build_takes_first_argument_after_program() {
    let config = Config::build(&args(&["wordcount", "notes.txt", "extra"])).unwrap();
    assert_eq!(config.file_path, "notes.txt");
}

#[test]
fn build_without_path_fails() {
    assert_eq!(
        Config::build(&args(&["wordcount"])).err(),
        Some("not enough arguments")
    );
    assert_eq!(Config::build(&args(&[])).err(), Some("not enough arguments"));
}

#[test]
fn decimal_rendering() {
    assert_eq!(decimal_string(0), "0");
    assert_eq!(decimal_string(7), "7");
    assert_eq!(decimal_string(10), "10");
    assert_eq!(decimal_string(1234567890), "1234567890");
    assert_eq!(decimal_string(usize::MAX), usize::MAX.to_string());
}

#[test]
fn table_holds_header_and_counts() {
    let config = Config {
        file_path: "poem.txt".to_string(),
    };
    let table = build_table(&config, "The quick brown fox\njumped over the lazy dog.\n\u{20ac}\n");
    let header: Vec<String> = table.header().unwrap().cell_iter().map(|c| c.content()).collect();
    assert_eq!(header, vec!["Lines", "Words", "Bytes", "Chars", "File"]);
    assert_eq!(table.row_count(), 1);
    let row: Vec<String> = table.row(0).unwrap().cell_iter().map(|c| c.content()).collect();
    assert_eq!(row, vec!["3", "10", "50", "48", "poem.txt"]);
}

#[test]
fn rendered_table_has_rounded_corners() {
    let config = Config {
        file_path: "empty.txt".to_string(),
    };
    let rendered = build_table(&config, "").to_string();
    assert!(rendered.starts_with('\u{256d}'));
    assert!(rendered.contains("Lines"));
    assert!(rendered.contains("empty.txt"));
}

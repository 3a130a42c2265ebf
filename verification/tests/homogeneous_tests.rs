use termtab::{ColumnLayout, Pos};
use termtab::homogeneous::{resolve_value, TableLayout, TableSource, TextFormatter, Title};

struct OneRow;

impl TableSource for OneRow {
    fn value_for_column(&self, column: &str) -> Option<String> {
        if column == "name" {
            Some("ada".to_string())
        } else {
            None
        }
    }
}

struct StarFormatter;

impl TextFormatter for StarFormatter {
    fn format_text(&self, source: String) -> String {
        format!("*{}*", source)
    }
}

struct KeyValue(&'static str, &'static str);

impl TableSource for KeyValue {
    fn value_for_column(&self, column: &str) -> Option<String> {
        if column == self.0 {
            Some(self.1.to_string())
        } else {
            None
        }
    }
}

#[test]
fn test_table_header_and_missing_value() {
    let mut table = TableLayout::new(
        "|",
        true,
        vec![
            (Title::new("Name", "name"), ColumnLayout::align(Pos::Left, ' ')),
            (Title::new("Age", "age"), ColumnLayout::align(Pos::Left, ' ')),
        ],
    );
    table.append_data(OneRow);
    // the absent "age" value is substituted with "N/A"
    assert_eq!(table.flush().as_str(), "Name|Age\nada |N/A");
}

#[test]
fn test_table_header_rebuffered_after_flush() {
    let mut table = TableLayout::new(
        "|",
        true,
        vec![(Title::new("Name", "name"), ColumnLayout::align(Pos::Left, ' '))],
    );
    table.append_data(OneRow);
    assert_eq!(table.flush().as_str(), "Name\nada ");
    table.append_data(OneRow);
    assert_eq!(table.flush().as_str(), "Name\nada ");
}

#[test]
fn test_table_without_header() {
    let mut table = TableLayout::new(
        "|",
        false,
        vec![(Title::new("Name", "name"), ColumnLayout::align(Pos::Left, ' '))],
    );
    table.append_data(OneRow);
    assert_eq!(table.flush().as_str(), "ada");
}

#[test]
fn test_table_formatter_applies_to_values_only() {
    let mut table = TableLayout::new(
        "|",
        true,
        vec![(
            Title::new_fmt("H", "k", StarFormatter),
            ColumnLayout::align(Pos::Left, ' '),
        )],
    );
    table.append_data(KeyValue("k", "x"));
    // the heading text is written as-is; the value goes through the transform
    assert_eq!(table.flush().as_str(), "H  \n*x*");
}

#[test]
fn test_resolve_value_substitutes_placeholder() {
    assert_eq!(resolve_value(Some("x".to_string())), "x");
    assert_eq!(resolve_value(None), "N/A");
}

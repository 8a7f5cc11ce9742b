use graphivault::schema::{connection_pragmas, database_file, schema_statements, vault_directories};
use graphivault::text::{compare_text, decimal, is_blank, same_text, trim_quotes};

#[test]
fn decimal_values() {
    assert_eq!(decimal(0), "0");
    assert_eq!(decimal(7), "7");
    assert_eq!(decimal(1234567890), "1234567890");
    assert_eq!(decimal(-42), "-42");
    assert_eq!(decimal(i64::MAX), i64::MAX.to_string());
    assert_eq!(decimal(i64::MIN), i64::MIN.to_string());
}

#[test]
fn compare_text_orders_by_code_point() {
    assert_eq!(compare_text("2024-01-02", "2024-01-01"), 1);
    assert_eq!(compare_text("2024-01-01", "2024-01-02"), -1);
    assert_eq!(compare_text("abc", "abc"), 0);
    assert_eq!(compare_text("ab", "abc"), -1);
    assert_eq!(compare_text("", ""), 0);
    assert_eq!(compare_text("é", "z"), 1);
}

#[test]
fn same_text_cases() {
    assert!(same_text("abc", "abc"));
    assert!(!same_text("abc", "abd"));
    assert!(!same_text("ab", "abc"));
}

#[test]
fn blank_text() {
    assert!(is_blank(""));
    assert!(is_blank(" \t\r\n\u{3000}"));
    assert!(!is_blank(" x "));
    assert!(is_blank("\u{85}\u{a0}\u{1680}\u{2000}\u{200a}\u{2028}\u{2029}\u{202f}\u{205f}"));
    assert!(!is_blank("\u{200b}"));
    assert!(!is_blank("\u{feff}"));
}

#[test]
fn trim_quotes_cases() {
    assert_eq!(trim_quotes("\"abc\""), "abc");
    assert_eq!(trim_quotes("\"\"a\"b\"\""), "a\"b");
    assert_eq!(trim_quotes("\"\"\""), "");
    assert_eq!(trim_quotes("plain"), "plain");
    assert_eq!(trim_quotes(""), "");
}

#[test]
fn schema_is_idempotent_text() {
    let statements = schema_statements();
    assert_eq!(statements.len(), 14);
    assert!(statements.iter().all(|s| s.starts_with("CREATE TABLE IF NOT EXISTS ") || s.starts_with("CREATE INDEX IF NOT EXISTS ")));
    assert_eq!(statements.iter().filter(|s| s.starts_with("CREATE TABLE")).count(), 5);
    assert!(statements[0].contains("file_hash TEXT NOT NULL UNIQUE"));
    assert!(statements[1].contains("ON DELETE CASCADE"));
}

#[test]
fn layout_and_settings() {
    assert_eq!(vault_directories(), vec!["data", "encrypted", "thumbnails", "temp", "backups"]);
    assert_eq!(database_file(), "graphivault.db");
    let pragmas = connection_pragmas();
    assert_eq!(pragmas.len(), 8);
    assert_eq!(pragmas[0], "PRAGMA foreign_keys = ON");
    assert_eq!(pragmas[1], "PRAGMA journal_mode = WAL");
}

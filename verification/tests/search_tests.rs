//! Search syntax tests: parsing and SQL generation.

use ffi::search::filters::{DateOp, FileType, Filter, SizeOp};
use ffi::search::parser::{parse_iso_date, parse_query, parse_query_at, parse_relative_date,
    parse_size_value};
use ffi::search::query::{build_sql_query, build_sql_query_with_limit, convert_wildcards_to_sql, SqlParam};

#[test]
fn test_parse_simple_word() {
    let query = parse_query("document").unwrap();
    assert_eq!(query.pattern, Some("document".to_string()));
    assert!(query.filters.is_empty());
}

#[test]
fn test_parse_multiple_words() {
    let query = parse_query("my document").unwrap();
    assert_eq!(query.pattern, Some("my document".to_string()));
}

#[test]
fn test_parse_wildcard_asterisk() {
    let query = parse_query("*.pdf").unwrap();
    assert_eq!(query.pattern, Some("*.pdf".to_string()));
}

#[test]
fn test_parse_wildcard_question() {
    let query = parse_query("doc?.txt").unwrap();
    assert_eq!(query.pattern, Some("doc?.txt".to_string()));
}

#[test]
fn test_parse_extension_filter() {
    let query = parse_query("ext:pdf").unwrap();
    assert!(query.pattern.is_none());
    assert_eq!(query.filters.len(), 1);
    assert_eq!(query.filters[0], Filter::Extension("pdf".to_string()));
}

#[test]
fn test_parse_size_greater() {
    let query = parse_query("size:>10mb").unwrap();
    assert_eq!(query.filters.len(), 1);
    assert_eq!(query.filters[0], Filter::Size(SizeOp::GreaterThan, 10 * 1024 * 1024));
}

#[test]
fn test_parse_size_less() {
    let query = parse_query("size:<1kb").unwrap();
    assert_eq!(query.filters.len(), 1);
    assert_eq!(query.filters[0], Filter::Size(SizeOp::LessThan, 1024));
}

#[test]
fn test_parse_size_greater_equal() {
    let query = parse_query("size:>=5gb").unwrap();
    assert_eq!(query.filters.len(), 1);
    assert_eq!(query.filters[0], Filter::Size(SizeOp::GreaterEqual, 5 * 1024 * 1024 * 1024));
}

#[test]
fn test_parse_type_folder() {
    let query = parse_query("type:folder").unwrap();
    assert_eq!(query.filters.len(), 1);
    assert_eq!(query.filters[0], Filter::Type(FileType::Folder));
}

#[test]
fn test_parse_type_file() {
    let query = parse_query("type:file").unwrap();
    assert_eq!(query.filters.len(), 1);
    assert_eq!(query.filters[0], Filter::Type(FileType::File));
}

#[test]
fn test_parse_modified_today() {
    let query = parse_query("modified:today").unwrap();
    assert_eq!(query.filters.len(), 1);
    if let Filter::Modified(op, _ts) = &query.filters[0] {
        assert_eq!(*op, DateOp::GreaterEqual);
    } else {
        panic!("Expected Modified filter");
    }
}

#[test]
fn test_parse_modified_comparison() {
    let query = parse_query("modified:>yesterday").unwrap();
    assert_eq!(query.filters.len(), 1);
    if let Filter::Modified(op, _ts) = &query.filters[0] {
        assert_eq!(*op, DateOp::GreaterThan);
    } else {
        panic!("Expected Modified filter");
    }
}

#[test]
fn test_parse_path_scope() {
    let query = parse_query(r"path:C:\Projects").unwrap();
    assert_eq!(query.filters.len(), 1);
    assert_eq!(query.filters[0], Filter::PathScope(r"C:\Projects".to_string()));
}

#[test]
fn test_parse_combined() {
    let query = parse_query("report ext:pdf size:>1mb").unwrap();
    assert_eq!(query.pattern, Some("report".to_string()));
    assert_eq!(query.filters.len(), 2);
    assert_eq!(query.filters[0], Filter::Extension("pdf".to_string()));
    assert_eq!(query.filters[1], Filter::Size(SizeOp::GreaterThan, 1024 * 1024));
}

#[test]
fn test_parse_quoted_string() {
    let query = parse_query(r#"ext:"my extension""#).unwrap();
    assert_eq!(query.filters.len(), 1);
    assert_eq!(query.filters[0], Filter::Extension("my extension".to_string()));
}

#[test]
fn test_parse_empty_query() {
    let query = parse_query("").unwrap();
    assert!(query.pattern.is_none());
    assert!(query.filters.is_empty());
}

#[test]
fn test_size_units() {
    let query = parse_query("size:>1b").unwrap();
    assert_eq!(query.filters[0], Filter::Size(SizeOp::GreaterThan, 1));
    let query = parse_query("size:>1KB").unwrap();
    assert_eq!(query.filters[0], Filter::Size(SizeOp::GreaterThan, 1024));
    let query = parse_query("size:>1MB").unwrap();
    assert_eq!(query.filters[0], Filter::Size(SizeOp::GreaterThan, 1024 * 1024));
    let query = parse_query("size:>1GB").unwrap();
    assert_eq!(query.filters[0], Filter::Size(SizeOp::GreaterThan, 1024 * 1024 * 1024));
    let query = parse_query("size:>1TB").unwrap();
    assert_eq!(query.filters[0], Filter::Size(SizeOp::GreaterThan, 1024i64 * 1024 * 1024 * 1024));
}

#[test]
fn test_relative_dates() {
    parse_query("modified:yesterday").unwrap();
    parse_query("modified:lastweek").unwrap();
    parse_query("modified:lastmonth").unwrap();
    parse_query("modified:lastyear").unwrap();
}

#[test]
fn test_iso_date() {
    let query = parse_query("modified:>2024-01-15").unwrap();
    assert_eq!(query.filters.len(), 1);
    if let Filter::Modified(op, ts) = &query.filters[0] {
        assert_eq!(*op, DateOp::GreaterThan);
        assert!(*ts > 0);
        assert!(*ts < chrono::Local::now().timestamp());
    } else {
        panic!("Expected Modified filter");
    }
}

#[test]
fn test_parse_size_value_exact() {
    assert_eq!(parse_size_value("10mb").unwrap(), 10 * 1024 * 1024);
    assert_eq!(parse_size_value("7").unwrap(), 7);
    assert_eq!(parse_size_value("2Kb").unwrap(), 2048);
    assert!(parse_size_value("mb").is_err());
    assert!(parse_size_value("10xb").is_err());
    // Too large for a signed 64-bit byte count.
    assert!(parse_size_value("9999999999tb").is_err());
}

#[test]
fn test_parse_iso_date_exact() {
    // Midnight at the epoch.
    assert_eq!(parse_iso_date("1970-01-01").unwrap(), 0);
    assert_eq!(parse_iso_date("2024-01-15").unwrap(), 1705276800);
    // Leap day exists in 2024 but not 2023.
    assert!(parse_iso_date("2024-02-29").is_ok());
    assert!(parse_iso_date("2023-02-29").is_err());
    assert!(parse_iso_date("2024-13-01").is_err());
    assert!(parse_iso_date("2024-1-1").is_err());
}

#[test]
fn test_parse_relative_date_exact() {
    // Three days and five seconds past the epoch: the day began at three
    // days exactly.
    let now = 3 * 86400 + 5;
    assert_eq!(parse_relative_date("today", now).unwrap(), 3 * 86400);
    assert_eq!(parse_relative_date("yesterday", now).unwrap(), 2 * 86400);
    assert_eq!(parse_relative_date("TODAY", now).unwrap(), 3 * 86400);
    assert!(parse_relative_date("fortnight", now).is_err());
}

#[test]
fn test_parse_query_at_is_deterministic() {
    let now = 10 * 86400 + 123;
    let q = parse_query_at("report modified:>yesterday", now).unwrap();
    assert_eq!(q.pattern, Some("report".to_string()));
    assert_eq!(q.filters[0], Filter::Modified(DateOp::GreaterThan, 9 * 86400));
}

#[test]
fn test_parse_unknown_type_is_error() {
    let result = parse_query("type:partition");
    assert!(result.is_err());
    assert!(matches!(result, Err(ffi::FFIError::Search(_))));
}

#[test]
fn test_parse_bad_size_is_error() {
    assert!(parse_query("size:>abc").is_err());
    assert!(parse_query("size:>10xb").is_err());
}

#[test]
fn test_parse_bad_date_is_error() {
    assert!(parse_query("modified:>2024-13-01").is_err());
    assert!(parse_query("modified:sometime").is_err());
}

#[test]
fn test_simple_word() {
    let parsed = parse_query("document").unwrap();
    let (sql, params) = build_sql_query(&parsed);
    assert!(sql.contains("WHERE"));
    assert!(sql.contains("name LIKE ? ESCAPE '\\'"));
    assert_eq!(params[0], SqlParam::Text("%document%".to_string()));
}

#[test]
fn test_wildcard_asterisk() {
    let parsed = parse_query("*.pdf").unwrap();
    let (sql, params) = build_sql_query(&parsed);
    assert!(sql.contains("name LIKE ? ESCAPE '\\'"));
    assert_eq!(params[0], SqlParam::Text("%.pdf".to_string()));
}

#[test]
fn test_wildcard_question() {
    let parsed = parse_query("doc?.txt").unwrap();
    let (sql, params) = build_sql_query(&parsed);
    assert!(sql.contains("name LIKE ? ESCAPE '\\'"));
    assert_eq!(params[0], SqlParam::Text("doc_.txt".to_string()));
}

#[test]
fn test_extension_filter() {
    let parsed = parse_query("ext:pdf").unwrap();
    let (sql, params) = build_sql_query(&parsed);
    assert!(sql.contains("name LIKE ?"));
    assert_eq!(params[0], SqlParam::Text("%.pdf".to_string()));
}

#[test]
fn test_size_greater() {
    let parsed = parse_query("size:>10mb").unwrap();
    let (sql, params) = build_sql_query(&parsed);
    assert!(sql.contains("size > ?"));
    assert_eq!(params[0], SqlParam::Integer(10 * 1024 * 1024));
}

#[test]
fn test_size_less() {
    let parsed = parse_query("size:<1kb").unwrap();
    let (sql, params) = build_sql_query(&parsed);
    assert!(sql.contains("size < ?"));
    assert_eq!(params[0], SqlParam::Integer(1024));
}

#[test]
fn test_size_greater_equal() {
    let parsed = parse_query("size:>=5gb").unwrap();
    let (sql, params) = build_sql_query(&parsed);
    assert!(sql.contains("size >= ?"));
    assert_eq!(params[0], SqlParam::Integer(5 * 1024 * 1024 * 1024));
}

#[test]
fn test_size_less_equal() {
    let parsed = parse_query("size:<=100mb").unwrap();
    let (sql, params) = build_sql_query(&parsed);
    assert!(sql.contains("size <= ?"));
    assert_eq!(params[0], SqlParam::Integer(100 * 1024 * 1024));
}

#[test]
fn test_type_folder() {
    let parsed = parse_query("type:folder").unwrap();
    let (sql, params) = build_sql_query(&parsed);
    assert!(sql.contains("is_dir = ?"));
    assert_eq!(params[0], SqlParam::Integer(1));
}

#[test]
fn test_type_file() {
    let parsed = parse_query("type:file").unwrap();
    let (sql, params) = build_sql_query(&parsed);
    assert!(sql.contains("is_dir = ?"));
    assert_eq!(params[0], SqlParam::Integer(0));
}

#[test]
fn test_modified_filter() {
    let parsed = parse_query("modified:>yesterday").unwrap();
    let (sql, params) = build_sql_query(&parsed);
    assert!(sql.contains("modified > ?"));
    if let SqlParam::Integer(ts) = &params[0] {
        assert!(*ts > 0);
    } else {
        panic!("Expected Integer parameter");
    }
}

#[test]
fn test_combined_filters() {
    let parsed = parse_query("report ext:pdf size:>1mb").unwrap();
    let (sql, params) = build_sql_query(&parsed);
    assert!(sql.contains("name LIKE ? ESCAPE '\\'"));
    assert!(sql.contains("name LIKE ?"));
    assert!(sql.contains("size > ?"));
    assert!(sql.contains(" AND "));
    // Parameter order: pattern, extension, size, limit.
    assert_eq!(params[0], SqlParam::Text("%report%".to_string()));
    assert_eq!(params[1], SqlParam::Text("%.pdf".to_string()));
    assert_eq!(params[2], SqlParam::Integer(1024 * 1024));
    assert_eq!(params[3], SqlParam::Integer(100));
}

#[test]
fn test_empty_query() {
    let parsed = parse_query("").unwrap();
    let (sql, params) = build_sql_query(&parsed);
    assert!(!sql.contains("WHERE"));
    assert!(sql.contains("LIMIT ?"));
    assert_eq!(params.len(), 1);
    assert_eq!(params[0], SqlParam::Integer(100));
}

#[test]
fn test_sql_injection_prevention() {
    let parsed = parse_query("'; DROP TABLE files; --").unwrap();
    let (sql, params) = build_sql_query(&parsed);
    assert!(sql.contains("name LIKE ? ESCAPE '\\'"));
    assert!(!sql.contains("DROP TABLE"));
    if let SqlParam::Text(text) = &params[0] {
        assert!(text.contains("DROP TABLE"));
    }
}

#[test]
fn test_escape_special_chars() {
    let parsed = parse_query("100%").unwrap();
    let (_sql, params) = build_sql_query(&parsed);
    if let SqlParam::Text(text) = &params[0] {
        assert!(text.contains("\\%"));
    }
    let parsed = parse_query("file_name").unwrap();
    let (_sql, params) = build_sql_query(&parsed);
    if let SqlParam::Text(text) = &params[0] {
        assert!(text.contains("\\_"));
    }
}

#[test]
fn test_custom_limit() {
    let parsed = parse_query("test").unwrap();
    let (_sql, params) = build_sql_query_with_limit(&parsed, 50);
    assert_eq!(params.last(), Some(&SqlParam::Integer(50)));
}

#[test]
fn test_path_scope_not_in_sql() {
    let parsed = parse_query(r"path:C:\Projects").unwrap();
    let (sql, _params) = build_sql_query(&parsed);
    assert!(!sql.contains("C:\\"));
}

#[test]
fn test_wildcard_conversion() {
    assert_eq!(convert_wildcards_to_sql("*.pdf"), "%.pdf");
    assert_eq!(convert_wildcards_to_sql("doc?.txt"), "doc_.txt");
    assert_eq!(convert_wildcards_to_sql("document"), "%document%");
    assert_eq!(convert_wildcards_to_sql("100%"), "%100\\%%");
    assert_eq!(convert_wildcards_to_sql("file_name"), "%file\\_name%");
}

#[test]
fn test_multiple_wildcards() {
    let parsed = parse_query("*test*").unwrap();
    let (_sql, params) = build_sql_query(&parsed);
    assert_eq!(params[0], SqlParam::Text("%test%".to_string()));
}

#[test]
fn test_quoted_literal() {
    let parsed = parse_query(r#"ext:"my file.txt""#).unwrap();
    let (_sql, params) = build_sql_query(&parsed);
    assert_eq!(params[0], SqlParam::Text("%.my file.txt".to_string()));
}

#[test]
fn test_size_op_to_sql() {
    assert_eq!(SizeOp::GreaterThan.to_sql(), ">");
    assert_eq!(SizeOp::GreaterEqual.to_sql(), ">=");
    assert_eq!(SizeOp::LessThan.to_sql(), "<");
    assert_eq!(SizeOp::LessEqual.to_sql(), "<=");
}

#[test]
fn test_date_op_to_sql() {
    assert_eq!(DateOp::GreaterThan.to_sql(), ">");
    assert_eq!(DateOp::GreaterEqual.to_sql(), ">=");
    assert_eq!(DateOp::LessThan.to_sql(), "<");
    assert_eq!(DateOp::LessEqual.to_sql(), "<=");
}

use openleaf_core::compile::{
    default_main_file, parse_latex_log, pdf_name_of, pdf_request_ok, pdf_url,
};
use openleaf_core::config::sqlite_file_of_url;
use openleaf_core::text::{parse_i32, replace_all, split_lines, trim};

#[test]
fn error_with_marker_line_and_number() {
    let log = "./main.tex:3: Undefined control sequence\n! Undefined control sequence.\n";
    let (errors, warnings) = parse_latex_log(log);
    assert_eq!(errors.len(), 1);
    assert_eq!(errors[0].file, "./main.tex");
    assert_eq!(errors[0].line, Some(3));
    assert_eq!(errors[0].message, "Undefined control sequence.");
    assert_eq!(warnings.len(), 0);
}

#[test]
fn error_file_shortened_to_last_paren() {
    let log = "(./chapters/one.tex:12 something\n! Missing $ inserted.\n";
    let (errors, _) = parse_latex_log(log);
    assert_eq!(errors.len(), 1);
    assert_eq!(errors[0].file, "./chapters/one.tex");
    assert_eq!(errors[0].line, Some(12));
}

#[test]
fn error_without_marker_is_unattributed() {
    let log = "some banner\n!! Emergency stop.  \nmore text\n";
    let (errors, warnings) = parse_latex_log(log);
    assert_eq!(errors.len(), 1);
    assert_eq!(errors[0].file, "");
    assert_eq!(errors[0].line, None);
    assert_eq!(errors[0].message, "Emergency stop.");
    assert_eq!(warnings.len(), 0);
}

#[test]
fn warnings_in_both_spellings() {
    let log = "LaTeX Warning: Reference undefined\npdfTeX warning: something\nplain line\n";
    let (errors, warnings) = parse_latex_log(log);
    assert_eq!(errors.len(), 0);
    assert_eq!(warnings.len(), 2);
    assert_eq!(warnings[0].message, "LaTeX Warning: Reference undefined");
    assert_eq!(warnings[0].file, "");
    assert_eq!(warnings[0].line, None);
    assert_eq!(warnings[1].message, "pdfTeX warning: something");
}

#[test]
fn marker_attribution_uses_nearest_preceding_line() {
    let log = "./a.tex:1: first\n./b.tex:22: second\n! Broke here.\n";
    let (errors, _) = parse_latex_log(log);
    assert_eq!(errors.len(), 1);
    assert_eq!(errors[0].file, "./b.tex");
    assert_eq!(errors[0].line, Some(22));
}

#[test]
fn marker_without_number_falls_back_to_blank() {
    // No colon after the marker position; a blank ends the number field.
    let log = "./a.tex:x7 rest\n! Oops.\n";
    let (errors, _) = parse_latex_log(log);
    assert_eq!(errors.len(), 1);
    assert_eq!(errors[0].file, "./a.tex");
    // "x7" does not parse as a number.
    assert_eq!(errors[0].line, None);
}

#[test]
fn empty_log_reports_nothing() {
    let (errors, warnings) = parse_latex_log("");
    assert_eq!(errors.len(), 0);
    assert_eq!(warnings.len(), 0);
}

#[test]
fn lines_split_like_the_log_reader() {
    let lines = split_lines("a\r\nb\nc");
    assert_eq!(lines, vec!["a", "b", "c"]);
    let lines = split_lines("one\n");
    assert_eq!(lines, vec!["one"]);
    let lines = split_lines("\n\nx");
    assert_eq!(lines, vec!["", "", "x"]);
    let lines: Vec<&str> = split_lines("");
    assert!(lines.is_empty());
}

#[test]
fn number_parsing_matches_the_standard_reader() {
    assert_eq!(parse_i32("42"), Some(42));
    assert_eq!(parse_i32("+42"), Some(42));
    assert_eq!(parse_i32("-42"), Some(-42));
    assert_eq!(parse_i32("0"), Some(0));
    assert_eq!(parse_i32("2147483647"), Some(i32::MAX));
    assert_eq!(parse_i32("-2147483648"), Some(i32::MIN));
    assert_eq!(parse_i32("2147483648"), None);
    assert_eq!(parse_i32("-2147483649"), None);
    assert_eq!(parse_i32(""), None);
    assert_eq!(parse_i32("+"), None);
    assert_eq!(parse_i32("12a"), None);
    assert_eq!(parse_i32(" 3"), None);
}

#[test]
fn trimming_strips_whitespace_both_ends() {
    assert_eq!(trim("  x\t"), "x");
    assert_eq!(trim("\r\n"), "");
    assert_eq!(trim("no-op"), "no-op");
    assert_eq!(trim(""), "");
}

#[test]
fn artifact_names_and_urls() {
    assert_eq!(pdf_name_of("main.tex"), "main.pdf");
    assert_eq!(pdf_name_of("a.tex.tex"), "a.pdf.pdf");
    assert_eq!(pdf_name_of("notes.md"), "notes.md");
    assert_eq!(replace_all("xx", "x", "yy"), "yyyy");
    assert_eq!(
        pdf_url("p1", "main.pdf"),
        "/api/compile/project/p1/pdf/main.pdf"
    );
}

#[test]
fn artifact_requests_check_extension_and_existence() {
    assert!(pdf_request_ok(true, "doc.pdf"));
    assert!(!pdf_request_ok(true, "doc.txt"));
    assert!(!pdf_request_ok(false, "doc.pdf"));
    assert!(!pdf_request_ok(true, "pdf"));
}

#[test]
fn default_entry_file() {
    assert_eq!(default_main_file(Some("paper.tex".to_string())), "paper.tex");
    assert_eq!(default_main_file(None), "main.tex");
}

#[test]
fn database_url_file_extraction() {
    assert_eq!(
        sqlite_file_of_url("sqlite:./data/openleaf.db?mode=rwc"),
        Some("./data/openleaf.db".to_string())
    );
    assert_eq!(sqlite_file_of_url("sqlite:x.db"), Some("x.db".to_string()));
    assert_eq!(sqlite_file_of_url("postgres://host/db"), None);
    assert_eq!(sqlite_file_of_url(""), None);
}

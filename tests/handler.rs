use std::sync::mpsc::channel;

use http_logger::{create_response, decimal_text, field_value, format_line, ingest, parse_line};
use http_logger::{classify, IngestResult, Outcome, Severity};

fn fields(pairs: &[(&str, &str)]) -> Vec<(String, String)> {
    pairs.iter().map(|(k, v)| (k.to_string(), v.to_string())).collect()
}

#[test]
fn debug_field_is_written_and_reported() {
    let (tx, rx) = channel::<String>();
    let result = ingest(&fields(&[("debug", "foo")]), &tx);
    let line = rx.try_recv().unwrap();
    assert!(line.ends_with("DEBUG] foo\n"));
    assert!(rx.try_recv().is_err());
    assert_eq!(result.success, vec![(Severity::Debug, line.len())]);
    assert!(result.errors.is_empty());
    let reply = create_response(&result);
    assert_eq!(reply.outcome, Outcome::FullSuccess);
    assert_eq!(reply.body, format!("{{\"success\":{{\"debug\":\"{}\"}},\"errors\":{{}}}}", line.len()));
}

#[test]
fn no_recognised_field_is_a_bad_request() {
    let (tx, rx) = channel::<String>();
    let result = ingest(&fields(&[("trace", "x"), ("message", "y")]), &tx);
    assert!(rx.try_recv().is_err());
    assert!(result.success.is_empty() && result.errors.is_empty());
    let reply = create_response(&result);
    assert_eq!(reply.outcome, Outcome::BadRequest);
    assert_eq!(reply.body, "Missing one of ['debug', 'info', 'warning', 'error'] in POST data.");
}

#[test]
fn every_submitted_level_is_reported_once() {
    let (tx, rx) = channel::<String>();
    let result = ingest(&fields(&[("error", "e"), ("other", "o"), ("info", "i")]), &tx);
    let levels: Vec<Severity> = result.success.iter().map(|p| p.0).collect();
    assert_eq!(levels, vec![Severity::Info, Severity::Error]);
    assert!(result.errors.is_empty());
    assert!(rx.try_recv().unwrap().ends_with("[INFO] i\n"));
    assert!(rx.try_recv().unwrap().ends_with("[ERROR] e\n"));
    assert!(rx.try_recv().is_err());
}

#[test]
fn closed_channel_gives_partial_success() {
    let (tx, rx) = channel::<String>();
    drop(rx);
    let result = ingest(&fields(&[("warning", "w"), ("debug", "d")]), &tx);
    assert!(result.success.is_empty());
    assert_eq!(result.errors.len(), 2);
    assert_eq!(result.errors[0], (Severity::Debug, "sending on a closed channel".to_string()));
    assert_eq!(result.errors[1], (Severity::Warning, "sending on a closed channel".to_string()));
    let reply = create_response(&result);
    assert_eq!(reply.outcome, Outcome::PartialSuccess);
    assert_eq!(
        reply.body,
        "{\"success\":{},\"errors\":{\"debug\":\"sending on a closed channel\",\"warning\":\"sending on a closed channel\"}}"
    );
}

#[test]
fn mixed_result_is_partial() {
    let mut result = IngestResult::new();
    result.record_send(Severity::Info, 12, Ok(()));
    result.record_send(Severity::Error, 9, Err("gone".to_string()));
    assert_eq!(classify(&result), Outcome::PartialSuccess);
    let reply = create_response(&result);
    assert_eq!(reply.body, "{\"success\":{\"info\":\"12\"},\"errors\":{\"error\":\"gone\"}}");
}

#[test]
fn first_field_of_a_name_wins() {
    let f = fields(&[("info", "a"), ("info", "b")]);
    assert_eq!(field_value(&f, &"info".to_string()), Some("a".to_string()));
    assert_eq!(field_value(&f, &"debug".to_string()), None);
}

#[test]
fn line_has_the_fixed_shape() {
    let line = format_line(Severity::Warning, "disk low", "2024-01-02 03:04:05 +00:00");
    assert_eq!(line, "[2024-01-02 03:04:05 +00:00] [WARNING] disk low\n");
}

#[test]
fn line_reads_back() {
    let line = format_line(Severity::Error, "a ] b [c]", "stamp");
    assert_eq!(parse_line(&line), Some((Severity::Error, "a ] b [c]".to_string())));
    let empty = format_line(Severity::Info, "", "");
    assert_eq!(parse_line(&empty), Some((Severity::Info, String::new())));
}

#[test]
fn malformed_lines_are_refused() {
    assert_eq!(parse_line(""), None);
    assert_eq!(parse_line("[t] [NOTICE] m\n"), None);
    assert_eq!(parse_line("[t] [INFO] m"), None);
    assert_eq!(parse_line("[t] [INFO] a\nb\n"), None);
    assert_eq!(parse_line("t] [INFO] m\n"), None);
}

#[test]
fn byte_counts_are_decimal() {
    assert_eq!(decimal_text(0), "0");
    assert_eq!(decimal_text(7), "7");
    assert_eq!(decimal_text(10), "10");
    assert_eq!(decimal_text(4096), "4096");
}

#[test]
fn level_names_and_tags() {
    assert_eq!(Severity::Warning.name(), "warning");
    assert_eq!(Severity::Debug.tag(), "DEBUG");
    assert_eq!(Severity::from_tag("INFO"), Some(Severity::Info));
    assert_eq!(Severity::from_tag("info"), None);
}

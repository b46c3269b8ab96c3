use load_harness::readiness::ReadinessScanner;
use load_harness::status::{cluster_pid_from_status, parse_status_output};
use load_harness::text::{
    bytes_eq, contains_sub, copy_bytes, last_token, parse_u32, split_lines, split_ws,
    unquote_token,
};

fn b(s: &str) -> Vec<u8> {
    s.as_bytes().to_vec()
}

#[test]
fn contains_finds_inner_substring() {
    assert!(contains_sub(b"hello PD Endpoints here", b"PD Endpoints"));
    assert!(!contains_sub(b"hello PD endpoints here", b"PD Endpoints"));
    assert!(contains_sub(b"abc", b""));
    assert!(!contains_sub(b"ab", b"abc"));
}

#[test]
fn split_ws_tokenizes_on_runs_of_whitespace() {
    let toks = split_ws(b"  alpha\tbeta  gamma ");
    let toks: Vec<Vec<u8>> = toks;
    assert_eq!(toks.len(), 3);
    assert_eq!(toks[0], b("alpha"));
    assert_eq!(toks[1], b("beta"));
    assert_eq!(toks[2], b("gamma"));
}

#[test]
fn last_token_takes_final_column() {
    assert_eq!(last_token(b"PD Endpoints:   127.0.0.1:2379 "), b("127.0.0.1:2379"));
    assert_eq!(last_token(b"   \t "), b(""));
    assert_eq!(last_token(b""), b(""));
}

#[test]
fn parse_u32_accepts_digits_only() {
    assert_eq!(parse_u32(b"123"), Some(123));
    assert_eq!(parse_u32(b"0012"), Some(12));
    assert_eq!(parse_u32(b"4294967295"), Some(u32::MAX));
    assert_eq!(parse_u32(b"4294967296"), None);
    assert_eq!(parse_u32(b""), None);
    assert_eq!(parse_u32(b"12a"), None);
    assert_eq!(parse_u32(b"-3"), None);
}

#[test]
fn split_lines_handles_crlf_and_trailing_newline() {
    let lines = split_lines(b"a\nbb\r\nccc\n");
    assert_eq!(lines.len(), 3);
    assert_eq!(lines[0], b("a"));
    assert_eq!(lines[1], b("bb"));
    assert_eq!(lines[2], b("ccc"));
    let lines = split_lines(b"no newline");
    assert_eq!(lines.len(), 1);
    assert_eq!(lines[0], b("no newline"));
    let lines = split_lines(b"");
    assert_eq!(lines.len(), 0);
    let lines = split_lines(b"x\n\ny");
    assert_eq!(lines.len(), 3);
    assert_eq!(lines[1], b(""));
}

#[test]
fn unquote_strips_one_quote_layer() {
    assert_eq!(unquote_token(&b("\"token\"")), b("token"));
    assert_eq!(unquote_token(&b("token")), b("token"));
    assert_eq!(unquote_token(&b("\"")), b("\""));
    assert_eq!(unquote_token(&b("")), b(""));
}

#[test]
fn bytes_helpers_roundtrip() {
    let v = b("abc");
    assert_eq!(copy_bytes(&v), v);
    assert!(bytes_eq(&v, b"abc"));
    assert!(!bytes_eq(&v, b"abd"));
    assert!(!bytes_eq(&v, b"ab"));
}

#[test]
fn readiness_scanner_captures_port_then_ready() {
    let mut sc = ReadinessScanner::new();
    sc.feed_line(b"starting components...");
    assert!(!sc.is_ready());
    sc.feed_line(b"PD Endpoints:   127.0.0.1:2379");
    assert!(!sc.is_ready());
    assert_eq!(sc.port_bytes(), Some(b("127.0.0.1:2379")));
    sc.feed_line(b"waiting for something");
    sc.feed_line(b"Grafana: http://127.0.0.1:3000");
    assert!(sc.is_ready());
    assert_eq!(sc.port_bytes(), Some(b("127.0.0.1:2379")));
}

#[test]
fn readiness_scanner_keeps_first_port_occurrence() {
    let mut sc = ReadinessScanner::new();
    sc.feed_line(b"PD Endpoints: first:1111");
    sc.feed_line(b"PD Endpoints: second:2222");
    assert_eq!(sc.port_bytes(), Some(b("first:1111")));
}

#[test]
fn readiness_scanner_never_ready_without_terminal_marker() {
    let mut sc = ReadinessScanner::new();
    sc.feed_line(b"PD Endpoints: 127.0.0.1:2379");
    sc.feed_line(b"still starting");
    sc.feed_line(b"almost there");
    assert!(!sc.is_ready());
}

#[test]
fn status_table_yields_component_pid() {
    let output = b"Name       Status  Pid   Ports\nplayground up      4021  1:2,3:4\nsurrealdb  up      51234 8080\n";
    assert_eq!(parse_status_output(output, b"surrealdb"), Some(51234));
    assert_eq!(cluster_pid_from_status(output), Some(51234));
}

#[test]
fn status_table_without_component_yields_none() {
    let output = b"Name  Status Pid\nother up     123\n";
    assert_eq!(parse_status_output(output, b"surrealdb"), None);
    assert_eq!(parse_status_output(b"", b"surrealdb"), None);
    assert_eq!(parse_status_output(b"header only\n", b"surrealdb"), None);
}

#[test]
fn status_table_skips_malformed_pid_rows() {
    let output = b"Name Status Pid\nsurrealdb up nope\nsurrealdb up 77\n";
    assert_eq!(parse_status_output(output, b"surrealdb"), Some(77));
}

#[test]
fn status_table_ignores_header_row_match() {
    let output = b"surrealdb would 999\nother up 5\n";
    assert_eq!(parse_status_output(output, b"surrealdb"), None);
}

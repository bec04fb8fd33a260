use bytes::Bytes;
use speedtest_fileserver::remoteip::{first_entry, forwarded_for};
use speedtest_fileserver::logger::{format_line, push_decimal, TransferAccount, TransferRecord};

fn record() -> TransferRecord {
    TransferRecord {
        client: Some("192.0.2.7".to_string()),
        date: String::new(),
        method: "GET".to_string(),
        path: "/1000kb".to_string(),
        version: "HTTP/1.1".to_string(),
        status: 200,
        referer: None,
        agent: Some("curl/8.0".to_string()),
    }
}

#[test]
fn line_format() {
    assert_eq!(
        format_line(&record(), 1_000_000),
        "192.0.2.7 - -  \"GET /1000kb HTTP/1.1\" 200 1000000 \"\" \"curl/8.0\""
    );
}

#[test]
fn zero_bytes_show_a_dash_and_unknown_client() {
    let mut r = record();
    r.client = None;
    r.referer = Some("http://example.com/".to_string());
    assert_eq!(
        format_line(&r, 0),
        "unknown - -  \"GET /1000kb HTTP/1.1\" 200 - \"http://example.com/\" \"curl/8.0\""
    );
}

#[test]
fn decimal_digits() {
    let mut s = String::from("x");
    push_decimal(&mut s, 0);
    push_decimal(&mut s, 10);
    push_decimal(&mut s, u64::MAX);
    assert_eq!(s, format!("x010{}", u64::MAX));
}

#[test]
fn counts_blocks_as_they_pass() {
    let mut a = TransferAccount::new(record(), true);
    let b = Bytes::copy_from_slice(&[7u8; 300]);
    let out = a.count(b.clone());
    assert_eq!(out, b);
    a.count(Bytes::copy_from_slice(&[1u8; 12]));
    assert_eq!(a.length(), 312);
    a.add(u64::MAX);
    assert_eq!(a.length(), u64::MAX);
}

fn run_to_end(blocks: usize, reports: usize, counter: &mut usize) -> Vec<String> {
    let mut a = TransferAccount::new(record(), true);
    for _ in 0..blocks {
        a.count(Bytes::copy_from_slice(&[0u8; 100]));
    }
    let mut lines = Vec::new();
    for _ in 0..reports {
        if let Some(line) = a.finalize() {
            *counter += 1;
            lines.push(line);
        }
    }
    assert!(a.is_finalized());
    lines
}

#[test]
fn finalize_once_on_natural_end() {
    let mut counter = 0;
    let lines = run_to_end(3, 1, &mut counter);
    assert_eq!(counter, 1);
    assert!(lines[0].contains(" 200 300 "));
}

#[test]
fn finalize_once_on_timeout_then_drop() {
    // the guard ends the stream early, then the stream is dropped as well
    let mut counter = 0;
    let lines = run_to_end(1, 2, &mut counter);
    assert_eq!(counter, 1);
    assert!(lines[0].contains(" 200 100 "));
}

#[test]
fn finalize_once_on_early_drop() {
    let mut counter = 0;
    let lines = run_to_end(0, 3, &mut counter);
    assert_eq!(counter, 1);
    assert!(lines[0].contains(" 200 - "));
}

#[test]
fn no_line_without_logging() {
    let mut a = TransferAccount::new(record(), false);
    a.add(5);
    assert!(a.finalize().is_none());
    assert!(a.finalize().is_none());
    assert!(a.is_finalized());
}

#[test]
fn first_forwarded_entry() {
    assert_eq!(first_entry("203.0.113.9, 10.0.0.1"), "203.0.113.9");
    assert_eq!(first_entry("  198.51.100.2  "), "198.51.100.2");
    assert_eq!(first_entry(" , 10.0.0.1"), "");
    assert_eq!(first_entry(""), "");
    assert_eq!(first_entry("   "), "");
}

#[test]
fn forwarded_client_node() {
    assert_eq!(forwarded_for("for=192.0.2.60;proto=http;by=203.0.113.43"), Some("192.0.2.60".to_string()));
    assert_eq!(forwarded_for("proto=https; For=\"[2001:db8:cafe::17]\", for=10.0.0.1"), Some("2001:db8:cafe::17".to_string()));
    assert_eq!(forwarded_for("for=\"[2001:db8::1]:4711\""), Some("[2001:db8::1]:4711".to_string()));
    assert_eq!(forwarded_for("proto=http, for=10.0.0.1"), None);
    assert_eq!(forwarded_for(""), None);
    assert_eq!(forwarded_for("for=unknown"), Some("unknown".to_string()));
}

use speedtest_fileserver::randomstream::RandomStream;
use speedtest_fileserver::server::{
    classify, download_headers, log_on_reply, max_size, size, size_request, wildcard_address,
    SizeError, SizeRequest, MAX_FILE_SIZE,
};

#[test]
fn sizes_with_units() {
    assert_eq!(size("1000kb").ok(), Some(1_000_000));
    assert_eq!(size("1kb").ok(), Some(1000));
    assert_eq!(size("1KB").ok(), Some(1000));
    assert_eq!(size("1mb").ok(), Some(1_000_000));
    assert_eq!(size("1MB").ok(), Some(1_000_000));
    assert_eq!(size("1000mb.bin").ok(), Some(1_000_000_000));
    assert_eq!(size("10gb.tar.gz").ok(), Some(10_000_000_000));
    assert_eq!(size("1GiB").ok(), Some(1 << 30));
    assert_eq!(size("2B").ok(), Some(2));
}

#[test]
fn sizes_that_do_not_parse() {
    assert!(size("abc").is_err());
    assert!(size("123xyz").is_err());
    assert!(size("").is_err());
    assert!(size(".bin").is_err());
    assert!(size("100").is_err());
}

#[test]
fn thousand_kb_download() {
    let r = size_request("1000kb", MAX_FILE_SIZE);
    assert_eq!(r, SizeRequest::Stream(1_000_000));
    assert_eq!(r.status(), 200);
    let headers = download_headers("1000kb", 1_000_000);
    assert_eq!(headers[2], ("content-length".to_string(), "1000000".to_string()));
    let mut s = RandomStream::new(1_000_000);
    let mut total = 0usize;
    while let Some(b) = s.next_chunk() {
        total += b.len();
    }
    assert_eq!(total, 1_000_000);
}

#[test]
fn too_big_is_bad_request() {
    let r = size_request("999999999999999gb", MAX_FILE_SIZE);
    assert_eq!(r, SizeRequest::TooBig);
    assert_eq!(r.status(), 400);
    assert_eq!(r.message(), "too big");
}

#[test]
fn non_numeric_is_not_found() {
    let r = size_request("abc", MAX_FILE_SIZE);
    assert_eq!(r, SizeRequest::NotFound);
    assert_eq!(r.status(), 404);
    assert_eq!(r.message(), "Not Found");
    assert_eq!(size_request("abc123xyz", MAX_FILE_SIZE).status(), 404);
}

#[test]
fn numeric_but_unparsable_is_bad_request() {
    let r = size_request("123xyz", MAX_FILE_SIZE);
    assert_eq!(r, SizeRequest::CannotParse);
    assert_eq!(r.status(), 400);
    assert_eq!(r.message(), "cannot parse size");
}

#[test]
fn classify_rules() {
    assert_eq!(classify(Some(10), false, 10), SizeRequest::Stream(10));
    assert_eq!(classify(Some(11), true, 10), SizeRequest::TooBig);
    assert_eq!(classify(None, true, 10), SizeRequest::CannotParse);
    assert_eq!(classify(None, false, 10), SizeRequest::NotFound);
    assert_eq!(classify(Some(0), false, 0), SizeRequest::Stream(0));
}

#[test]
fn default_maximum() {
    assert_eq!(MAX_FILE_SIZE, 10 * 1024 * 1024 * 1024);
    assert_eq!(max_size(None), MAX_FILE_SIZE);
    assert_eq!(max_size(Some(5)), 5);
    assert_eq!(size_request("2kb", max_size(Some(1999))), SizeRequest::TooBig);
}

#[test]
fn headers_of_a_download() {
    let h = download_headers("1mb.bin", 1_000_000);
    let expected = [
        ("content-type", "application/binary"),
        ("content-disposition", "attachment; filename=1mb.bin"),
        ("content-length", "1000000"),
        ("cache-control", "no-cache, no-store, no-transform, must-revalidate"),
        ("pragma", "no-cache"),
        ("connection", "close"),
    ];
    assert_eq!(h.len(), expected.len());
    for (got, want) in h.iter().zip(expected.iter()) {
        assert_eq!(got.0, want.0);
        assert_eq!(got.1, want.1);
    }
}

#[test]
fn downloads_are_logged_by_their_stream() {
    assert!(!log_on_reply("/1000kb", 200));
    assert!(log_on_reply("/1000kb", 400));
    assert!(log_on_reply("/", 200));
    assert!(log_on_reply("/abc", 404));
    assert!(!log_on_reply("/a/b/5mb.bin", 200));
    assert!(!log_on_reply("7", 200));
}

#[test]
fn wildcard_listen_addresses() {
    assert_eq!(wildcard_address("*:80"), "0.0.0.0:80");
    assert_eq!(wildcard_address("[::]:443"), "[::]:443");
    assert_eq!(wildcard_address(""), "");
    assert_eq!(wildcard_address("127.0.0.1:8080"), "127.0.0.1:8080");
}

#[test]
fn upper_case_retry() {
    // "ı" is not ASCII, so the unit only reads once upper-cased to "KIB"
    assert_eq!(size("1k\u{131}b").ok(), Some(1024));
    assert_eq!(size_request("3k\u{131}b.bin", MAX_FILE_SIZE), SizeRequest::Stream(3072));
}

#[test]
fn non_ascii_numerals_are_bad_requests() {
    for name in ["\u{be}b", "\u{b2}kb", "\u{966}kb", "1\u{be}mb.bin"] {
        assert!(matches!(size(name), Err(SizeError::NonAsciiNumeral)));
        let r = size_request(name, MAX_FILE_SIZE);
        assert_eq!(r, SizeRequest::CannotParse);
        assert_eq!(r.status(), 400);
    }
}

#[test]
fn ascii_failures_keep_the_parser_error() {
    assert!(matches!(size("123xyz"), Err(SizeError::Unparsable(_))));
    assert!(matches!(size(""), Err(SizeError::Unparsable(_))));
}

use cgi_server::headers::{HeaderAccumulator, HeaderScanner};

fn run_scanner(chunks: &[&[u8]]) -> (HeaderAccumulator, HeaderScanner, bool) {
    let mut scanner = HeaderScanner::new();
    let mut acc = HeaderAccumulator::new();
    let mut done = false;
    for chunk in chunks {
        if done {
            break;
        }
        scanner.push_chunk(chunk);
        done = scanner.scan(&mut acc);
    }
    (acc, scanner, done)
}

fn header_value(acc: &HeaderAccumulator, name: &[u8]) -> Option<Vec<u8>> {
    for (k, v) in acc.headers() {
        if k.as_slice() == name {
            return Some(v.clone());
        }
    }
    None
}

#[test]
fn echo_status_and_body() {
    let (acc, scanner, done) = run_scanner(&[
        b"Status: 200 OK\r\nContent-Type: text/plain\r\n\r\nhello world\n",
    ]);
    assert!(done);
    assert_eq!(acc.status(), Some(200));
    assert_eq!(acc.finish(), Ok(200));
    assert_eq!(header_value(&acc, b"Content-Type").unwrap(), b"text/plain".to_vec());
    assert_eq!(scanner.into_remainder(), b"hello world\n".to_vec());
}

#[test]
fn location_without_status_becomes_302() {
    let (acc, scanner, done) = run_scanner(&[b"Location: /next\r\n\r\n"]);
    assert!(done);
    assert_eq!(acc.status(), None);
    assert_eq!(acc.finish(), Ok(302));
    assert_eq!(header_value(&acc, b"Location").unwrap(), b"/next".to_vec());
    assert_eq!(scanner.into_remainder(), b"".to_vec());
}

#[test]
fn missing_content_type_and_status_is_refused() {
    let (acc, scanner, done) = run_scanner(&[b"X-Foo: bar\r\n\r\nbody"]);
    assert!(done);
    assert_eq!(header_value(&acc, b"X-Foo").unwrap(), b"bar".to_vec());
    let err = acc.finish().unwrap_err();
    assert_eq!(err.0, 500);
    assert_eq!(err.1, "Missing required Content-Type header");
    assert_eq!(scanner.into_remainder(), b"body".to_vec());
}

#[test]
fn nothing_read_is_refused() {
    let mut scanner = HeaderScanner::new();
    let mut acc = HeaderAccumulator::new();
    scanner.finish_eof(&mut acc);
    let err = acc.finish().unwrap_err();
    assert_eq!(err.0, 500);
    assert_eq!(err.1, "No header read");
}

#[test]
fn eof_after_lines_accepts_them() {
    let (mut acc, mut scanner, done) = run_scanner(&[b"Content-Type: text/plain\r\n"]);
    assert!(!done);
    scanner.finish_eof(&mut acc);
    assert_eq!(acc.finish(), Ok(200));
}

#[test]
fn bare_lf_lines_are_tolerated() {
    let (acc, scanner, done) = run_scanner(&[b"Content-Type: a/b\n\nrest"]);
    assert!(done);
    assert_eq!(acc.finish(), Ok(200));
    assert_eq!(header_value(&acc, b"Content-Type").unwrap(), b"a/b".to_vec());
    assert_eq!(scanner.into_remainder(), b"rest".to_vec());
}

#[test]
fn malformed_line_is_skipped() {
    let (acc, _, done) = run_scanner(&[b"junk\r\nContent-Type: a/b\r\n\r\n"]);
    assert!(done);
    assert_eq!(acc.finish(), Ok(200));
    assert_eq!(acc.headers().len(), 1);
}

#[test]
fn status_with_reason_and_bad_status() {
    let (acc, _, _) = run_scanner(&[b"Status: 404 Not Found\r\n\r\n"]);
    assert_eq!(acc.finish(), Ok(404));
    let (acc, _, _) = run_scanner(&[b"Status: abc\r\nContent-Type: a/b\r\n\r\n"]);
    assert_eq!(acc.status(), None);
    assert_eq!(acc.finish(), Ok(200));
    let (acc, _, _) = run_scanner(&[b"Status: 99\r\nContent-Type: a/b\r\n\r\n"]);
    assert_eq!(acc.status(), None);
    let (acc, _, _) = run_scanner(&[b"Status: 1000\r\nContent-Type: a/b\r\n\r\n"]);
    assert_eq!(acc.status(), None);
}

#[test]
fn status_alone_is_enough() {
    let (acc, _, _) = run_scanner(&[b"Status: 204\r\n\r\n"]);
    assert_eq!(acc.finish(), Ok(204));
}

#[test]
fn split_chunks_reassemble_lines() {
    let (acc, scanner, done) = run_scanner(&[
        b"Conte",
        b"nt-Type: text/pl",
        b"ain\r\n\r",
        b"\nbody bytes",
    ]);
    assert!(done);
    assert_eq!(header_value(&acc, b"Content-Type").unwrap(), b"text/plain".to_vec());
    assert_eq!(acc.finish(), Ok(200));
    assert_eq!(scanner.into_remainder(), b"body bytes".to_vec());
}

#[test]
fn invalid_header_value_is_skipped_but_flags_count() {
    let (acc, _, _) = run_scanner(&[b"Content-Type: a\x01b\r\n\r\n"]);
    assert_eq!(acc.headers().len(), 0);
    assert_eq!(acc.finish(), Ok(200));
}

#[test]
fn header_keys_and_values_are_trimmed() {
    let (acc, _, _) = run_scanner(&[b"  Content-Type  :   text/plain  \r\n\r\n"]);
    assert_eq!(header_value(&acc, b"Content-Type").unwrap(), b"text/plain".to_vec());
}

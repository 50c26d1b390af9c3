use romf::blacklist::BlacklistMiddleware;
use romf::handlers::{serve_files, serve_files_at, upload, upload_at, Response, UploadError};

fn build_body(filename: &str, payload: &[u8]) -> Vec<u8> {
    let mut body = Vec::new();
    body.extend_from_slice(b"--BOUND\r\n");
    body.extend_from_slice(
        format!(
            "Content-Disposition: form-data; name=\"file\"; filename=\"{}\"\r\n",
            filename
        )
        .as_bytes(),
    );
    body.extend_from_slice(b"\r\n");
    body.extend_from_slice(payload);
    body.extend_from_slice(b"--BOUND--\r\n");
    body
}

fn empty_blacklist() -> BlacklistMiddleware {
    BlacklistMiddleware::new(&Vec::new())
}

fn has_header(r: &Response, name: &str, value: &str) -> bool {
    r.headers
        .iter()
        .any(|(n, v)| n.as_slice() == name.as_bytes() && v.as_slice() == value.as_bytes())
}

fn has_cors(r: &Response) -> bool {
    has_header(r, "access-control-allow-origin", "*")
        && has_header(
            r,
            "access-control-allow-methods",
            "GET, POST, OPTIONS, DELETE, PATCH, PUT",
        )
}

#[test]
fn valid_upload_stores_and_logs() {
    let bl = empty_blacklist();
    let mut body = Vec::new();
    body.extend_from_slice(b"--BOUND\r\n");
    body.extend_from_slice(
        b"Content-Disposition: form-data; name=\"file\"; filename=\"photo.png\"\r\n",
    );
    body.extend_from_slice(b"\r\n");
    body.extend_from_slice(b"hello");
    body.extend_from_slice(b"\r\n--BOUND--\r\n");
    let remote = b"1.2.3.4".to_vec();
    let base = b"http://localhost:80".to_vec();
    let id8 = b"abcdefgh".to_vec();
    let now = b"2020-01-01T00:00:00+00:00".to_vec();
    let o = upload_at(&bl, Some(&remote), None, &base, &body, &id8, &now);
    assert_eq!(o.response.status, 200);
    assert!(has_cors(&o.response));
    assert_eq!(
        o.response.body,
        b"http://localhost:80/files/abcdefgh.png".to_vec()
    );
    assert!(o.error.is_none());
    let stored = o.stored.expect("a valid upload stores a file");
    assert_eq!(stored.name, b"abcdefgh.png".to_vec());
    assert_eq!(stored.contents, b"hello".to_vec());
    let line = o.log_line.expect("a valid upload logs a record");
    let expected = b"{\"id\":\"abcdefgh.png\",\"file_name\":\"photo.png\",\"source\":\"unknown\",\"address\":\"1.2.3.4\",\"timestamp\":\"2020-01-01T00:00:00+00:00\"}\n".to_vec();
    assert_eq!(line, expected);
    let parsed: serde_json::Value = serde_json::from_slice(&line[..line.len() - 1]).unwrap();
    assert_eq!(parsed["file_name"], "photo.png");
    assert_eq!(parsed["id"], "abcdefgh.png");
}

#[test]
fn spaces_in_file_names_become_underscores() {
    let bl = empty_blacklist();
    let body = build_body("my photo.png", b"x\r\n");
    let remote = b"1.2.3.4".to_vec();
    let base = b"http://localhost:80".to_vec();
    let id8 = b"abcdefgh".to_vec();
    let now = b"t".to_vec();
    let o = upload_at(&bl, Some(&remote), None, &base, &body, &id8, &now);
    assert_eq!(o.response.status, 200);
    let line = o.log_line.unwrap();
    let parsed: serde_json::Value = serde_json::from_slice(&line[..line.len() - 1]).unwrap();
    assert_eq!(parsed["file_name"], "my_photo.png");
}

#[test]
fn blocked_extensions_reject_without_storing() {
    let bl = empty_blacklist();
    let remote = b"1.2.3.4".to_vec();
    let base = b"http://localhost:80".to_vec();
    let id8 = b"abcdefgh".to_vec();
    let now = b"t".to_vec();
    for name in ["page.html", "page.htm", "page.php"] {
        let body = build_body(name, b"x\r\n");
        let o = upload_at(&bl, Some(&remote), None, &base, &body, &id8, &now);
        assert_eq!(o.response.status, 400);
        assert_eq!(o.error, Some(UploadError::BlockedExtension));
        assert!(o.stored.is_none());
        assert!(o.log_line.is_none());
        assert!(has_cors(&o.response));
    }
    // The match is exact and case-sensitive: these pass.
    for name in ["page.HTML", "page.xhtml", "page.ph"] {
        let body = build_body(name, b"x\r\n");
        let o = upload_at(&bl, Some(&remote), None, &base, &body, &id8, &now);
        assert_eq!(o.response.status, 200, "{} should be accepted", name);
    }
}

#[test]
fn malformed_bodies_are_client_errors() {
    let bl = empty_blacklist();
    let remote = b"1.2.3.4".to_vec();
    let base = b"http://localhost:80".to_vec();
    let id8 = b"abcdefgh".to_vec();
    let now = b"t".to_vec();
    let cases: Vec<Vec<u8>> = vec![
        Vec::new(),
        b"x".to_vec(),
        b"no newline here".to_vec(),
        b"--BOUND\r\nContent-Disposition: form-data; name=\"file\"\r\n\r\nx\r\n--BOUND--\r\n"
            .to_vec(),
        b"--BOUND\r\nContent-Disposition: form-data; name=\"file\"; filename=\"a.png\"\r\nno blank line"
            .to_vec(),
        // The first line does not start with the boundary prefix marker.
        b"XBOUND\r\nContent-Disposition: form-data; filename=\"a.png\"\r\n\r\nx\r\n--BOUND--\r\n"
            .to_vec(),
    ];
    for body in cases {
        let o = upload_at(&bl, Some(&remote), None, &base, &body, &id8, &now);
        assert_eq!(o.response.status, 400);
        assert_eq!(o.error, Some(UploadError::MalformedUpload));
        assert!(o.stored.is_none());
        assert!(o.log_line.is_none());
        assert!(has_cors(&o.response));
    }
}

#[test]
fn source_label_is_decoded_or_defaulted() {
    let bl = empty_blacklist();
    let body = build_body("a.png", b"x\r\n");
    let remote = b"1.2.3.4".to_vec();
    let base = b"u".to_vec();
    let id8 = b"abcdefgh".to_vec();
    let now = b"t".to_vec();
    let raw = b"my%20phone".to_vec();
    let o = upload_at(&bl, Some(&remote), Some(&raw), &base, &body, &id8, &now);
    let line = o.log_line.unwrap();
    let parsed: serde_json::Value = serde_json::from_slice(&line[..line.len() - 1]).unwrap();
    assert_eq!(parsed["source"], "my phone");
    let o = upload_at(&bl, Some(&remote), None, &base, &body, &id8, &now);
    let line = o.log_line.unwrap();
    let parsed: serde_json::Value = serde_json::from_slice(&line[..line.len() - 1]).unwrap();
    assert_eq!(parsed["source"], "unknown");
}

#[test]
fn log_lines_escape_json_specials() {
    let bl = empty_blacklist();
    let body = build_body("a\\b.png", b"x\r\n");
    let remote = b"1.2.3.4".to_vec();
    let base = b"u".to_vec();
    let id8 = b"abcdefgh".to_vec();
    let now = b"t".to_vec();
    let o = upload_at(&bl, Some(&remote), None, &base, &body, &id8, &now);
    let line = o.log_line.unwrap();
    let parsed: serde_json::Value = serde_json::from_slice(&line[..line.len() - 1]).unwrap();
    assert_eq!(parsed["file_name"], "a\\b.png");
}

#[test]
fn additional_fields_are_ignored() {
    let bl = empty_blacklist();
    let mut body = Vec::new();
    body.extend_from_slice(b"--BOUND\r\n");
    body.extend_from_slice(
        b"Content-Disposition: form-data; name=\"file\"; filename=\"first.png\"\r\n",
    );
    body.extend_from_slice(b"\r\nfirst payload\r\n");
    body.extend_from_slice(b"--BOUND\r\n");
    body.extend_from_slice(
        b"Content-Disposition: form-data; name=\"extra\"; filename=\"second.png\"\r\n",
    );
    body.extend_from_slice(b"\r\nsecond payload\r\n");
    body.extend_from_slice(b"--BOUND--\r\n");
    let remote = b"1.2.3.4".to_vec();
    let base = b"u".to_vec();
    let id8 = b"abcdefgh".to_vec();
    let now = b"t".to_vec();
    let o = upload_at(&bl, Some(&remote), None, &base, &body, &id8, &now);
    assert_eq!(o.response.status, 200);
    let stored = o.stored.unwrap();
    assert_eq!(stored.name, b"abcdefgh.png".to_vec());
    assert_eq!(stored.contents, b"first payload".to_vec());
    let line = o.log_line.unwrap();
    let parsed: serde_json::Value = serde_json::from_slice(&line[..line.len() - 1]).unwrap();
    assert_eq!(parsed["file_name"], "first.png");
}

#[test]
fn missing_file_yields_not_found_and_access_line() {
    let bl = empty_blacklist();
    let remote = b"1.2.3.4".to_vec();
    let id = b"zzzzzzzz.xyz".to_vec();
    let now = b"2020-01-01T00:00:00+00:00".to_vec();
    let o = serve_files_at(&bl, Some(&remote), &id, None, &now);
    assert_eq!(o.response.status, 404);
    assert_eq!(o.response.body, b"File not found".to_vec());
    assert!(has_cors(&o.response));
    let line = o.log_line.expect("every retrieval attempt is logged");
    let expected = b"{\"id\":\"zzzzzzzz.xyz\",\"exists\":false,\"address\":\"1.2.3.4\",\"timestamp\":\"2020-01-01T00:00:00+00:00\"}\n".to_vec();
    assert_eq!(line, expected);
}

#[test]
fn present_file_comes_back_byte_for_byte() {
    let bl = empty_blacklist();
    let remote = b"1.2.3.4".to_vec();
    let id = b"abcdefgh.png".to_vec();
    let contents = b"hello".to_vec();
    let now = b"t".to_vec();
    let o = serve_files_at(&bl, Some(&remote), &id, Some(&contents), &now);
    assert_eq!(o.response.status, 200);
    assert_eq!(o.response.body, b"hello".to_vec());
    assert!(has_cors(&o.response));
    let line = o.log_line.unwrap();
    let parsed: serde_json::Value = serde_json::from_slice(&line[..line.len() - 1]).unwrap();
    assert_eq!(parsed["exists"], true);
}

#[test]
fn repeated_retrieval_returns_identical_bytes() {
    let bl = empty_blacklist();
    let remote = b"1.2.3.4".to_vec();
    let id = b"abcdefgh.png".to_vec();
    let contents = b"same bytes every time".to_vec();
    let mut bodies = Vec::new();
    for i in 0..3 {
        let now = format!("2020-01-01T00:00:0{}+00:00", i).into_bytes();
        let o = serve_files_at(&bl, Some(&remote), &id, Some(&contents), &now);
        assert_eq!(o.response.status, 200);
        assert!(o.log_line.is_some(), "one access line per attempt");
        bodies.push(o.response.body);
    }
    assert_eq!(bodies[0], bodies[1]);
    assert_eq!(bodies[1], bodies[2]);
}

#[test]
fn blacklisted_clients_are_turned_away_everywhere() {
    let bl = BlacklistMiddleware::new(&b"9.9.9.9\n1.2.3.4\n".to_vec());
    let bad = b"1.2.3.4".to_vec();
    let good = b"5.6.7.8".to_vec();
    let base = b"u".to_vec();
    let id8 = b"abcdefgh".to_vec();
    let now = b"t".to_vec();
    let body = build_body("a.png", b"x\r\n");
    let o = upload_at(&bl, Some(&bad), None, &base, &body, &id8, &now);
    assert_eq!(o.response.status, 403);
    assert!(o.stored.is_none());
    assert!(o.log_line.is_none());
    assert!(o.response.headers.is_empty());
    let id = b"abcdefgh.png".to_vec();
    let contents = b"hello".to_vec();
    let o = serve_files_at(&bl, Some(&bad), &id, Some(&contents), &now);
    assert_eq!(o.response.status, 403);
    assert!(o.log_line.is_none());
    let o = upload_at(&bl, Some(&good), None, &base, &body, &id8, &now);
    assert_eq!(o.response.status, 200);
    let o = serve_files_at(&bl, None, &id, Some(&contents), &now);
    assert_eq!(o.response.status, 200);
}

#[test]
fn blacklist_splits_lines_without_trailing_empty() {
    let bl = BlacklistMiddleware::new(&b"a\nb".to_vec());
    assert!(bl.is_blacklisted(&b"a".to_vec()));
    assert!(bl.is_blacklisted(&b"b".to_vec()));
    assert!(!bl.is_blacklisted(&b"".to_vec()));
    assert!(!bl.is_blacklisted(&b"c".to_vec()));
    let bl = BlacklistMiddleware::new(&Vec::new());
    assert!(!bl.is_blacklisted(&b"a".to_vec()));
}

#[test]
fn full_pipeline_round_trip() {
    let bl = empty_blacklist();
    let remote = b"1.2.3.4".to_vec();
    let base = b"http://localhost:80".to_vec();
    let body = build_body("photo.png", b"hello\r\n");
    let o = upload(&bl, Some(&remote), None, &base, &body);
    assert_eq!(o.response.status, 200);
    let stored = o.stored.unwrap();
    assert_eq!(stored.contents, b"hello".to_vec());
    let prefix = b"http://localhost:80/files/";
    assert!(o.response.body.starts_with(prefix));
    assert_eq!(&o.response.body[prefix.len()..], stored.name.as_slice());
    let r = serve_files(&bl, Some(&remote), &stored.name, Some(&stored.contents));
    assert_eq!(r.response.status, 200);
    assert_eq!(r.response.body, b"hello".to_vec());
    let line = r.log_line.unwrap();
    let parsed: serde_json::Value = serde_json::from_slice(&line[..line.len() - 1]).unwrap();
    assert_eq!(parsed["exists"], true);
    assert!(parsed["timestamp"].as_str().unwrap().len() > 0);
}

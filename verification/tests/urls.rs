use lib::url::{find_launch_url, parse_status_line, status_request_text, url_for, url_port};

#[test]
fn url_for_builds_the_bare_loopback_url() {
    assert_eq!(url_for(3080), "http://127.0.0.1:3080/");
    assert_eq!(url_for(0), "http://127.0.0.1:0/");
}

#[test]
fn url_port_reads_loopback_ports() {
    assert_eq!(url_port("http://127.0.0.1:3099/?token=abc"), Some(3099));
    assert_eq!(url_port("http://localhost:5173?token=x"), Some(5173));
    assert_eq!(url_port("http://127.0.0.1:8080"), Some(8080));
    assert_eq!(url_port("http://example.com:80/"), None);
    assert_eq!(url_port("https://127.0.0.1:443/"), None);
    assert_eq!(url_port("http://127.0.0.1:99999/"), None);
    assert_eq!(url_port("http://127.0.0.1:/"), None);
}

#[test]
fn url_port_reads_back_url_for() {
    for p in [0u16, 1, 80, 3080, 65535] {
        assert_eq!(url_port(&url_for(p)), Some(p));
    }
}

#[test]
fn launch_url_after_the_marker() {
    let log = b"starting\r\n  dsh web: http://127.0.0.1:3099/?token=abc123  (ctrl-c to stop)\r\n";
    assert_eq!(
        find_launch_url(log, 0, "dsh web:"),
        Some("http://127.0.0.1:3099/?token=abc123".to_string())
    );
}

#[test]
fn launch_url_strips_trailing_punctuation() {
    let log = b"dsh web: open (http://localhost:4000/?token=t1).\n";
    assert_eq!(find_launch_url(log, 0, "dsh web:"), None);
    let log2 = b"dsh web: http://localhost:4000/?token=t1).,\n";
    assert_eq!(find_launch_url(log2, 0, "dsh web:"), Some("http://localhost:4000/?token=t1".to_string()));
}

#[test]
fn marker_takes_https_too() {
    let log = b"ui dsh web: https://example.test/app\n";
    assert_eq!(find_launch_url(log, 0, "dsh web:"), Some("https://example.test/app".to_string()));
}

#[test]
fn launch_url_falls_back_to_a_tokenized_loopback_url() {
    let log = b"Listening on http://127.0.0.1:3000/?lang=en&token=zz\n";
    assert_eq!(
        find_launch_url(log, 0, "renamed marker:"),
        Some("http://127.0.0.1:3000/?lang=en&token=zz".to_string())
    );
    let bare = b"Listening on http://127.0.0.1:3000/\n";
    assert_eq!(find_launch_url(bare, 0, "renamed marker:"), None);
}

#[test]
fn empty_marker_uses_only_the_fallback() {
    let log = b"dsh web: http://127.0.0.1:1/\nother http://localhost:2/?token=q\n";
    assert_eq!(find_launch_url(log, 0, ""), Some("http://localhost:2/?token=q".to_string()));
}

#[test]
fn output_before_the_offset_is_never_read() {
    let old = b"dsh web: http://127.0.0.1:3099/?token=OLD\n".to_vec();
    let mut log = old.clone();
    log.extend_from_slice(b"dsh web: http://127.0.0.1:3099/?token=NEW\n");
    assert_eq!(
        find_launch_url(&log, old.len() as u64, "dsh web:"),
        Some("http://127.0.0.1:3099/?token=NEW".to_string())
    );
    assert_eq!(find_launch_url(&old, old.len() as u64, "dsh web:"), None);
    assert_eq!(find_launch_url(&old, u64::MAX, "dsh web:"), None);
}

#[test]
fn marker_line_without_url_moves_on() {
    let log = b"dsh web: starting...\nnoise\ndsh web: http://127.0.0.1:5/?token=a\n";
    assert_eq!(find_launch_url(log, 0, "dsh web:"), Some("http://127.0.0.1:5/?token=a".to_string()));
}

#[test]
fn invalid_utf8_is_decoded_lossily() {
    let mut log = vec![0xff, 0xfe, b' '];
    log.extend_from_slice(b"dsh web: http://127.0.0.1:7/?token=\xffz\n");
    assert_eq!(
        find_launch_url(&log, 0, "dsh web:"),
        Some("http://127.0.0.1:7/?token=\u{fffd}z".to_string())
    );
}

#[test]
fn status_line_parsing() {
    assert_eq!(parse_status_line(b"HTTP/1.1 401 Unauthorized\r\nContent-Length: 0\r\n"), Some(401));
    assert_eq!(parse_status_line(b"HTTP/1.1 200 OK\r\n"), Some(200));
    assert_eq!(parse_status_line(b"HTTP/1.1 303 See Other"), Some(303));
    assert_eq!(parse_status_line(b""), None);
    assert_eq!(parse_status_line(b"SSH-2.0-OpenSSH\r\n"), None);
    assert_eq!(parse_status_line(b"HTTP/1.1 abc\r\n"), None);
    assert_eq!(parse_status_line(b"\r\nHTTP/1.1 200 OK\r\n"), None);
}

#[test]
fn status_request_asks_for_the_root() {
    assert_eq!(
        status_request_text(3099),
        "GET / HTTP/1.1\r\nHost: 127.0.0.1:3099\r\nUser-Agent: dsh-launcher\r\nAccept: */*\r\nConnection: close\r\n\r\n"
    );
}

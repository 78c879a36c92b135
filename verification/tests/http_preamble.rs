use iface_proxy::error::ProxyError;
use iface_proxy::http::{accept_chunk, split_headers_body, MAX_PREAMBLE};

#[test]
fn split_finds_first_blank_line() {
    let buf = b"GET / HTTP/1.1\r\nHost: a\r\n\r\nbody\r\n\r\n";
    let (end, body) = split_headers_body(buf).unwrap();
    assert_eq!(end, 27);
    assert_eq!(body, b"body\r\n\r\n");
}

#[test]
fn split_without_blank_line_is_none() {
    assert!(split_headers_body(b"GET / HTTP/1.1\r\nHost: a\r\n").is_none());
    assert!(split_headers_body(b"").is_none());
    assert!(split_headers_body(b"\r\n\r").is_none());
}

#[test]
fn split_of_bare_blank_line() {
    let (end, body) = split_headers_body(b"\r\n\r\n").unwrap();
    assert_eq!(end, 4);
    assert!(body.is_empty());
}

#[test]
fn empty_chunk_means_closed() {
    let mut buf = b"GET".to_vec();
    assert_eq!(accept_chunk(&mut buf, b""), Err(ProxyError::ClientClosedBeforeHeaders));
    assert_eq!(buf, b"GET".to_vec());
}

#[test]
fn chunks_accumulate_until_blank_line() {
    let mut buf = Vec::new();
    assert_eq!(accept_chunk(&mut buf, b"GET / HTTP/1.1\r\n"), Ok(None));
    assert_eq!(accept_chunk(&mut buf, b"Host: a\r\n\r"), Ok(None));
    assert_eq!(accept_chunk(&mut buf, b"\nrest"), Ok(Some(27)));
    assert_eq!(buf, b"GET / HTTP/1.1\r\nHost: a\r\n\r\nrest".to_vec());
}

#[test]
fn stream_without_blank_line_is_too_large() {
    let mut buf = Vec::new();
    let chunk = [b'a'; 1024];
    for _ in 0..64 {
        assert_eq!(accept_chunk(&mut buf, &chunk), Ok(None));
    }
    assert_eq!(buf.len(), MAX_PREAMBLE);
    assert_eq!(accept_chunk(&mut buf, b"a"), Err(ProxyError::HeadersTooLarge));
}

#[test]
fn blank_line_ending_at_the_bound_is_accepted() {
    let mut buf = vec![b'a'; MAX_PREAMBLE - 4];
    assert_eq!(accept_chunk(&mut buf, b"\r\n\r\n"), Ok(Some(MAX_PREAMBLE)));
}

#[test]
fn blank_line_ending_past_the_bound_is_too_large() {
    let mut buf = vec![b'a'; MAX_PREAMBLE - 3];
    assert_eq!(accept_chunk(&mut buf, b"\r\n\r\n"), Err(ProxyError::HeadersTooLarge));
}

#[test]
fn body_bytes_past_the_bound_do_not_matter() {
    let mut buf = b"GET / HTTP/1.1\r\n\r\n".to_vec();
    let body = vec![b'x'; MAX_PREAMBLE];
    assert_eq!(accept_chunk(&mut buf, &body), Ok(Some(18)));
}

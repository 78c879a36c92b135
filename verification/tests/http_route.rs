use iface_proxy::error::ProxyError;
use iface_proxy::http::{
    connect_reply, connection_established, parse_host_from_headers, parse_request_line,
    route_request, split_lines, Route,
};
use iface_proxy::target::{Host, Target};

fn named(host: &[u8], port: u16) -> Target {
    Target { host: Host::Name(host.to_vec()), port }
}

fn forwarded(raw: &[u8]) -> (Target, Vec<u8>, Vec<u8>) {
    match route_request(raw) {
        Ok(Route::Forward { target, preamble, body }) => (target, preamble, body),
        other => panic!("not forwarded: {:?}", other),
    }
}

#[test]
fn request_line_has_three_fields() {
    let (m, u, v) = parse_request_line(b"GET /index.html HTTP/1.1\r\nHost: a\r\n\r\n").unwrap();
    assert_eq!(m, b"GET");
    assert_eq!(u, b"/index.html");
    assert_eq!(v, b"HTTP/1.1");
}

#[test]
fn request_line_splits_on_any_white_space() {
    let (m, u, v) = parse_request_line(b"  POST\t\thttp://a/b   HTTP/1.0 extra\r\n\r\n").unwrap();
    assert_eq!(m, b"POST");
    assert_eq!(u, b"http://a/b");
    assert_eq!(v, b"HTTP/1.0");
}

#[test]
fn request_line_with_missing_field_is_bad() {
    assert_eq!(parse_request_line(b"GET /\r\n\r\n"), Err(ProxyError::BadRequestLine));
    assert_eq!(parse_request_line(b"GET\r\n\r\n"), Err(ProxyError::BadRequestLine));
    assert_eq!(parse_request_line(b"\r\n\r\n"), Err(ProxyError::BadRequestLine));
    assert_eq!(parse_request_line(b""), Err(ProxyError::BadRequestLine));
    assert_eq!(parse_request_line(b"   \r\nGET / HTTP/1.1\r\n"), Err(ProxyError::BadRequestLine));
}

#[test]
fn request_line_is_the_first_line_only() {
    assert_eq!(parse_request_line(b"GET /\r\nHTTP/1.1 x y\r\n\r\n"), Err(ProxyError::BadRequestLine));
}

#[test]
fn lines_are_split_at_line_breaks() {
    let lines = split_lines(b"a\r\nb c\r\n\r\n");
    assert_eq!(lines, vec![&b"a"[..], &b"b c"[..], &b""[..], &b""[..]]);
    assert_eq!(split_lines(b""), vec![&b""[..]]);
    assert_eq!(split_lines(b"a\rb\nc"), vec![&b"a\rb\nc"[..]]);
}

#[test]
fn host_header_is_found_in_any_case() {
    assert_eq!(
        parse_host_from_headers(b"GET / HTTP/1.1\r\nHost: example.test\r\n\r\n"),
        Some(b"example.test".to_vec())
    );
    assert_eq!(
        parse_host_from_headers(b"GET / HTTP/1.1\r\nhost:example.test:81  \r\n\r\n"),
        Some(b"example.test:81".to_vec())
    );
    assert_eq!(
        parse_host_from_headers(b"GET / HTTP/1.1\r\nAccept: x\r\nHOST:\t a \r\nHost: b\r\n\r\n"),
        Some(b"a".to_vec())
    );
}

#[test]
fn host_header_is_not_sought_in_the_request_line() {
    assert_eq!(parse_host_from_headers(b"Host: a b c\r\nAccept: x\r\n\r\n"), None);
    assert_eq!(parse_host_from_headers(b"GET / HTTP/1.1\r\n\r\n"), None);
}

#[test]
fn host_header_may_be_empty() {
    assert_eq!(parse_host_from_headers(b"GET / HTTP/1.1\r\nHost:   \r\n\r\n"), Some(Vec::new()));
}

#[test]
fn absolute_get_is_rewritten_with_host() {
    let (target, preamble, body) = forwarded(b"GET http://example.test/path HTTP/1.1\r\n\r\n");
    assert_eq!(target, named(b"example.test", 80));
    assert_eq!(preamble, b"GET /path HTTP/1.1\r\nHost: example.test\r\n\r\n".to_vec());
    assert!(body.is_empty());
}

#[test]
fn absolute_get_keeps_other_headers() {
    let (target, preamble, _) = forwarded(
        b"GET http://example.test/path HTTP/1.1\r\nAccept: */*\r\nUser-Agent: t\r\n\r\n",
    );
    assert_eq!(target, named(b"example.test", 80));
    assert_eq!(
        preamble,
        b"GET /path HTTP/1.1\r\nAccept: */*\r\nUser-Agent: t\r\nHost: example.test\r\n\r\n".to_vec()
    );
}

#[test]
fn host_is_synthesized_with_port() {
    let (target, preamble, _) = forwarded(b"GET http://example.test:8080/p?q=1 HTTP/1.1\r\n\r\n");
    assert_eq!(target, named(b"example.test", 8080));
    assert_eq!(preamble, b"GET /p?q=1 HTTP/1.1\r\nHost: example.test:8080\r\n\r\n".to_vec());
}

#[test]
fn host_is_synthesized_without_port_80() {
    let (target, preamble, _) = forwarded(b"GET http://example.test:80/p HTTP/1.1\r\n\r\n");
    assert_eq!(target, named(b"example.test", 80));
    assert_eq!(preamble, b"GET /p HTTP/1.1\r\nHost: example.test\r\n\r\n".to_vec());
}

#[test]
fn client_host_header_is_kept_and_none_added() {
    let (target, preamble, _) =
        forwarded(b"GET http://example.test:81/ HTTP/1.1\r\nhOsT: other\r\n\r\n");
    assert_eq!(target, named(b"example.test", 81));
    assert_eq!(preamble, b"GET / HTTP/1.1\r\nhOsT: other\r\n\r\n".to_vec());
}

#[test]
fn absolute_target_without_path_gets_root() {
    let (target, preamble, _) = forwarded(b"HEAD http://example.test HTTP/1.0\r\n\r\n");
    assert_eq!(target, named(b"example.test", 80));
    assert_eq!(preamble, b"HEAD / HTTP/1.0\r\nHost: example.test\r\n\r\n".to_vec());
}

#[test]
fn unreadable_port_falls_back_to_80() {
    let (target, _, _) = forwarded(b"GET http://example.test:http/ HTTP/1.1\r\n\r\n");
    assert_eq!(target, named(b"example.test", 80));
    let (target, _, _) = forwarded(b"GET http://example.test:70000/ HTTP/1.1\r\n\r\n");
    assert_eq!(target, named(b"example.test", 80));
    let (target, _, _) = forwarded(b"GET http://example.test:/ HTTP/1.1\r\n\r\n");
    assert_eq!(target, named(b"example.test", 80));
    let (target, _, _) = forwarded(b"GET http://example.test:+81/ HTTP/1.1\r\n\r\n");
    assert_eq!(target, named(b"example.test", 81));
    let (target, _, _) = forwarded(b"GET http://example.test:0081/ HTTP/1.1\r\n\r\n");
    assert_eq!(target, named(b"example.test", 81));
    let (target, _, _) = forwarded(b"GET http://example.test:65535/ HTTP/1.1\r\n\r\n");
    assert_eq!(target, named(b"example.test", 65535));
    let (target, _, _) = forwarded(b"GET http://example.test:65536/ HTTP/1.1\r\n\r\n");
    assert_eq!(target, named(b"example.test", 80));
    let (target, _, _) = forwarded(b"GET http://example.test:8:1/ HTTP/1.1\r\n\r\n");
    assert_eq!(target, named(b"example.test", 80));
}

#[test]
fn hop_by_hop_headers_are_stripped_in_any_case() {
    let (_, preamble, _) = forwarded(
        b"GET http://a/ HTTP/1.1\r\nProxy-Connection: keep-alive\r\nX: 1\r\nPROXY-AUTHORIZATION: Basic e\r\nproxy-connection:close\r\nY: 2\r\n\r\n",
    );
    assert_eq!(preamble, b"GET / HTTP/1.1\r\nX: 1\r\nY: 2\r\nHost: a\r\n\r\n".to_vec());
}

#[test]
fn headers_that_only_resemble_hop_headers_are_kept() {
    let (_, preamble, _) = forwarded(
        b"GET http://a/ HTTP/1.1\r\nProxy-Connections: x\r\nX-Proxy-Connection: y\r\nProxy-Connection : z\r\n\r\n",
    );
    assert_eq!(
        preamble,
        b"GET / HTTP/1.1\r\nProxy-Connections: x\r\nX-Proxy-Connection: y\r\nProxy-Connection : z\r\nHost: a\r\n\r\n"
            .to_vec()
    );
}

#[test]
fn origin_form_uses_host_header() {
    let (target, preamble, _) = forwarded(b"GET /x HTTP/1.1\r\nHost: example.test:8081\r\n\r\n");
    assert_eq!(target, named(b"example.test", 8081));
    assert_eq!(preamble, b"GET /x HTTP/1.1\r\nHost: example.test:8081\r\n\r\n".to_vec());
}

#[test]
fn origin_form_without_host_header_has_empty_host() {
    let (target, preamble, _) = forwarded(b"GET /x HTTP/1.1\r\nAccept: a\r\n\r\n");
    assert_eq!(target, named(b"", 80));
    assert_eq!(preamble, b"GET /x HTTP/1.1\r\nAccept: a\r\nHost: \r\n\r\n".to_vec());
}

#[test]
fn buffered_body_goes_with_the_forward() {
    let (_, preamble, body) =
        forwarded(b"POST http://a/u HTTP/1.1\r\nContent-Length: 5\r\n\r\nhello");
    assert_eq!(preamble, b"POST /u HTTP/1.1\r\nContent-Length: 5\r\nHost: a\r\n\r\n".to_vec());
    assert_eq!(body, b"hello".to_vec());
}

#[test]
fn connect_is_a_tunnel() {
    let r = route_request(b"CONNECT example.test:443 HTTP/1.1\r\nHost: example.test:443\r\n\r\n");
    assert_eq!(r, Ok(Route::Tunnel { target: named(b"example.test", 443), body: Vec::new() }));
}

#[test]
fn connect_is_recognised_in_any_case() {
    let r = route_request(b"connect example.test:8443 HTTP/1.1\r\n\r\n");
    assert_eq!(r, Ok(Route::Tunnel { target: named(b"example.test", 8443), body: Vec::new() }));
    let r = route_request(b"CoNnEcT example.test:8443 HTTP/1.1\r\n\r\n");
    assert_eq!(r, Ok(Route::Tunnel { target: named(b"example.test", 8443), body: Vec::new() }));
}

#[test]
fn connect_defaults_to_port_443() {
    let r = route_request(b"CONNECT example.test HTTP/1.1\r\n\r\n");
    assert_eq!(r, Ok(Route::Tunnel { target: named(b"example.test", 443), body: Vec::new() }));
    let r = route_request(b"CONNECT example.test:x HTTP/1.1\r\n\r\n");
    assert_eq!(r, Ok(Route::Tunnel { target: named(b"example.test", 443), body: Vec::new() }));
    let r = route_request(b"CONNECT example.test:99999 HTTP/1.1\r\n\r\n");
    assert_eq!(r, Ok(Route::Tunnel { target: named(b"example.test", 443), body: Vec::new() }));
}

#[test]
fn connect_reads_the_port_between_the_first_two_colons() {
    let r = route_request(b"CONNECT example.test:444:5 HTTP/1.1\r\n\r\n");
    assert_eq!(r, Ok(Route::Tunnel { target: named(b"example.test", 444), body: Vec::new() }));
}

#[test]
fn bytes_sent_with_connect_go_into_the_tunnel() {
    let r = route_request(b"CONNECT example.test:443 HTTP/1.1\r\n\r\n\x16\x03\x01hello");
    assert_eq!(
        r,
        Ok(Route::Tunnel {
            target: named(b"example.test", 443),
            body: b"\x16\x03\x01hello".to_vec()
        })
    );
}

#[test]
fn connect_reply_is_exact() {
    assert_eq!(
        connection_established(),
        b"HTTP/1.1 200 Connection Established\r\nProxy-Agent: iface-proxy\r\n\r\n".to_vec()
    );
}

#[test]
fn nothing_is_replied_when_the_tunnel_fails() {
    assert!(connect_reply(false).is_empty());
    assert_eq!(connect_reply(true), connection_established());
}

#[test]
fn https_target_is_unsupported() {
    assert_eq!(
        route_request(b"GET https://x.test/ HTTP/1.1\r\n\r\n"),
        Err(ProxyError::UnsupportedUri)
    );
}

#[test]
fn other_targets_are_unsupported() {
    assert_eq!(route_request(b"GET x.test/ HTTP/1.1\r\n\r\n"), Err(ProxyError::UnsupportedUri));
    assert_eq!(route_request(b"OPTIONS * HTTP/1.1\r\n\r\n"), Err(ProxyError::UnsupportedUri));
    assert_eq!(
        route_request(b"GET HTTP://x.test/ HTTP/1.1\r\n\r\n"),
        Err(ProxyError::UnsupportedUri)
    );
}

#[test]
fn routing_needs_complete_headers() {
    assert_eq!(route_request(b"GET http://a/ HTTP/1.1\r\n"), Err(ProxyError::BadHeaders));
    assert_eq!(route_request(b""), Err(ProxyError::BadHeaders));
}

#[test]
fn routing_needs_a_request_line() {
    assert_eq!(route_request(b"GET\r\n\r\n"), Err(ProxyError::BadRequestLine));
    assert_eq!(route_request(b"\r\n\r\n"), Err(ProxyError::BadRequestLine));
}

#[test]
fn error_messages_are_the_documented_ones() {
    assert_eq!(ProxyError::HeadersTooLarge.message(), "headers too large");
    assert_eq!(ProxyError::ClientClosedBeforeHeaders.message(), "client closed before headers");
    assert_eq!(ProxyError::BadRequestLine.message(), "bad request line");
    assert_eq!(ProxyError::UnsupportedUri.message(), "unsupported URI for HTTP proxy");
    assert_eq!(ProxyError::UnsupportedAtyp.message(), "Unsupported ATYP");
    assert_eq!(ProxyError::UdpAssocNotSupported.message(), "UDP ASSOC not supported");
    assert_eq!(ProxyError::UnsupportedCmd.message(), "Unsupported CMD");
    assert_eq!(ProxyError::ReadTimeout.message(), "read timeout");
    assert_eq!(ProxyError::SessionTimeout.message(), "session timeout");
    assert_eq!(ProxyError::BadHeaders.message(), "bad headers");
    assert_eq!(
        ProxyError::InvalidGreetingVersion.message(),
        "Invalid SOCKS5 version in greeting"
    );
    assert_eq!(
        ProxyError::AuthMethodNotOffered.message(),
        "client doesn't support username/password auth"
    );
    assert_eq!(ProxyError::InvalidAuthVersion.message(), "invalid auth subnegotiation version");
    assert_eq!(ProxyError::InvalidCredentials.message(), "invalid username/password");
    assert_eq!(ProxyError::InvalidRequestVersion.message(), "Invalid SOCKS5 version in request");
    assert_eq!(ProxyError::NoAddress.message(), "no address");
    assert_eq!(ProxyError::InvalidIface.message(), "Invalid iface");
    assert_eq!(ProxyError::BindV4Failed.message(), "setsockopt(IP_BOUND_IF) failed");
    assert_eq!(ProxyError::BindV6Failed.message(), "setsockopt(IPV6_BOUND_IF) failed");
}

use tunnel::http::{
    assigned_url, local_request, no_tunnel_message, parse_u16, proxy_subdomain, reply_status,
    server_host, text_headers, LocalResponse,
};

#[test]
fn server_host_strips_port() {
    assert_eq!(server_host("example.org:9000"), "example.org");
    assert_eq!(server_host("localhost"), "localhost");
    assert_eq!(server_host(":9000"), "");
}

#[test]
fn proxy_routes_by_first_label() {
    assert_eq!(proxy_subdomain("dev-a1b2.myapp.duckdns.org", "myapp.duckdns.org"), Some("dev-a1b2".to_string()));
    assert_eq!(proxy_subdomain("myapp.duckdns.org", "myapp.duckdns.org"), None);
    assert_eq!(proxy_subdomain("", "localhost"), None);
    assert_eq!(proxy_subdomain(".x", "localhost"), None);
    assert_eq!(proxy_subdomain("localhost:443", "localhost"), Some("localhost:443".to_string()));
    assert_eq!(proxy_subdomain("app.localhost", "localhost"), Some("app".to_string()));
}

#[test]
fn messages_and_urls() {
    assert_eq!(no_tunnel_message("abc"), "no tunnel for 'abc'");
    assert_eq!(assigned_url("dev-1", "example.org"), "https://dev-1.example.org");
    assert_eq!(assigned_url("dev-1", ""), "https://dev-1.");
}

#[test]
fn local_request_defaults_and_filters() {
    let headers = vec![
        ("accept".to_string(), Some("*/*".to_string())),
        ("host".to_string(), Some("x.example.org".to_string())),
        ("content-length".to_string(), Some("3".to_string())),
        ("x-number".to_string(), None),
        ("user-agent".to_string(), Some("curl".to_string())),
    ];
    let r = local_request(None, None, &headers);
    assert_eq!(
        r,
        "GET / HTTP/1.1\r\naccept: */*\r\nuser-agent: curl\r\nHost: localhost\r\nConnection: close\r\n\r\n"
    );
    let r = local_request(Some("POST"), Some("/api?q=1"), &Vec::new());
    assert_eq!(r, "POST /api?q=1 HTTP/1.1\r\nHost: localhost\r\nConnection: close\r\n\r\n");
}

#[test]
fn parse_u16_like_std() {
    for s in ["0", "200", "+404", "65535", "0065535", "65536", "", "+", "-1", "2x0", " 200", "99999999999"] {
        assert_eq!(parse_u16(s.as_bytes()), s.parse::<u16>().ok(), "input {:?}", s);
    }
}

#[test]
fn parse_local_response_status_and_body() {
    let r = LocalResponse::parse(b"HTTP/1.1 404 Not Found\r\nContent-Type: text/plain\r\n\r\nmissing\r\n\r\ntail");
    assert_eq!(r.status, 404);
    assert_eq!(r.body, "missing\r\n\r\ntail");
    let r = LocalResponse::parse(b"HTTP/1.1 200\r\n\r\n");
    assert_eq!(r.status, 200);
    assert_eq!(r.body, "");
    let r = LocalResponse::parse(b"HTTP/1.1 200 OK\n\nbody");
    assert_eq!(r.status, 200);
    assert_eq!(r.body, "");
}

#[test]
fn parse_local_response_falls_back_to_502() {
    assert_eq!(LocalResponse::parse(b"").status, 502);
    assert_eq!(LocalResponse::parse(b"garbage").status, 502);
    assert_eq!(LocalResponse::parse(b"HTTP/1.1 abc OK\r\n\r\nx").status, 502);
    assert_eq!(LocalResponse::parse(b"HTTP/1.1 70000 OK\r\n\r\nx").status, 502);
    assert_eq!(LocalResponse::parse(b"HTTP/1.1 200\r").status, 502);
    assert_eq!(LocalResponse::parse(b"\nHTTP/1.1 200 OK").status, 502);
}

#[test]
fn parse_local_response_lossy_body() {
    let r = LocalResponse::parse(b"HTTP/1.1 200 OK\r\n\r\nok\xff!");
    assert_eq!(r.body, "ok\u{fffd}!");
}

#[test]
fn parse_matches_std_lines_on_samples() {
    let samples: [&[u8]; 5] = [
        b"HTTP/1.0 301 Moved\r\nLocation: /\r\n\r\n",
        b"HTTP/1.1  200 OK\r\n\r\n",
        b"HTTP/1.1 201",
        b"HTTP/1.1\t200 OK\r\n\r\n",
        b"x +7 y\r\n\r\nz",
    ];
    for s in samples {
        let text = String::from_utf8_lossy(s).to_string();
        let expected = text
            .lines()
            .next()
            .and_then(|line| line.split(' ').nth(1))
            .and_then(|f| f.parse::<u16>().ok())
            .unwrap_or(502);
        let body = text.splitn(2, "\r\n\r\n").nth(1).unwrap_or("");
        let r = LocalResponse::parse(s);
        assert_eq!(r.status, expected);
        assert_eq!(r.body, body);
    }
}

#[test]
fn refused_response() {
    let r = LocalResponse::refused("connection refused (os error 111)");
    assert_eq!(r.status, 502);
    assert_eq!(r.body, "Connection refused: connection refused (os error 111)");
}

#[test]
fn reply_status_cuts_to_16_bits() {
    assert_eq!(reply_status(Some(200)), 200);
    assert_eq!(reply_status(None), 502);
    assert_eq!(reply_status(Some(70000)), 4464);
}

#[test]
fn text_headers_keep_text_values() {
    let h = vec![
        ("a".to_string(), Some("1".to_string())),
        ("b".to_string(), None),
        ("c".to_string(), Some("3".to_string())),
    ];
    assert_eq!(
        text_headers(&h),
        vec![("a".to_string(), "1".to_string()), ("c".to_string(), "3".to_string())]
    );
}

#[test]
fn answer_read_as_lossy_text() {
    let r = LocalResponse::parse(b"HTTP/1.1 201 Cr\xe9ated\r\nA: \xff\xfe\r\n\r\nx\r\n\r\n\xc3\xa9y");
    assert_eq!(r.status, 201);
    assert_eq!(r.body, "x\r\n\r\n\u{e9}y");
    let r = LocalResponse::parse(b"HTTP/1.1 \xff200 OK\r\n\r\nb");
    assert_eq!(r.status, 502);
    assert_eq!(r.body, "b");
    let r = LocalResponse::parse(b"HTTP/1.1 200 OK\r\n\xe2\x82\r\n\r\nz");
    assert_eq!(r.body, "z");
}

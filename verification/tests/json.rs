use tunnel::http::LocalResponse;
use tunnel::json::{request_payload, ClientReply, VisitorRequest};
use tunnel::types::ProtocolError;

#[test]
fn visitor_request_fields() {
    let p = br#"{"method":"POST","uri":"/x?y=1","headers":{"accept":"*/*","x-n":3},"visitor":"1.2.3.4:5"}"#;
    let r = VisitorRequest::from_payload(p).unwrap();
    assert_eq!(r.method.as_deref(), Some("POST"));
    assert_eq!(r.uri.as_deref(), Some("/x?y=1"));
    assert_eq!(
        r.headers,
        vec![("accept".to_string(), Some("*/*".to_string())), ("x-n".to_string(), None)]
    );
}

#[test]
fn visitor_request_missing_or_odd_fields() {
    let r = VisitorRequest::from_payload(br#"{"method":7,"headers":"no"}"#).unwrap();
    assert_eq!(r.method, None);
    assert_eq!(r.uri, None);
    assert!(r.headers.is_empty());
    let r = VisitorRequest::from_payload(b"[1,2]").unwrap();
    assert_eq!(r.method, None);
}

#[test]
fn visitor_request_bad_json() {
    assert!(matches!(VisitorRequest::from_payload(b"{nope"), Err(ProtocolError::Json(_))));
}

#[test]
fn request_payload_document() {
    let headers = vec![("host".to_string(), "a.example.org".to_string())];
    let b = request_payload("GET", "/p", &headers, "9.9.9.9:1").unwrap();
    let v: serde_json::Value = serde_json::from_slice(&b).unwrap();
    assert_eq!(v["method"], "GET");
    assert_eq!(v["uri"], "/p");
    assert_eq!(v["headers"]["host"], "a.example.org");
    assert_eq!(v["visitor"], "9.9.9.9:1");
    assert_eq!(
        std::str::from_utf8(&b).unwrap(),
        r#"{"headers":{"host":"a.example.org"},"method":"GET","uri":"/p","visitor":"9.9.9.9:1"}"#
    );
}

#[test]
fn reply_payload_document() {
    let r = LocalResponse { status: 404, body: "gone \"x\"".to_string() };
    let b = r.payload().unwrap();
    assert_eq!(std::str::from_utf8(&b).unwrap(), r#"{"body":"gone \"x\"","headers":{},"status":404}"#);
}

#[test]
fn client_reply_fields() {
    let c = ClientReply::from_payload(br#"{"status":201,"headers":{"a":"1","b":2},"body":"ok"}"#).unwrap();
    assert_eq!(c.status, 201);
    assert_eq!(c.headers, vec![("a".to_string(), "1".to_string())]);
    assert_eq!(c.body, "ok");
    let c = ClientReply::from_payload(br#"{"status":-1}"#).unwrap();
    assert_eq!(c.status, 502);
    assert_eq!(c.body, "");
    assert!(c.headers.is_empty());
    let c = ClientReply::from_payload(br#"{"status":70000,"body":1}"#).unwrap();
    assert_eq!(c.status, 4464);
    assert_eq!(c.body, "");
    assert!(matches!(ClientReply::from_payload(b""), Err(ProtocolError::Json(_))));
}

#[test]
fn reply_round_trip_through_the_tunnel() {
    let local = LocalResponse::parse(b"HTTP/1.1 418 Teapot\r\n\r\nshort and stout");
    let payload = local.payload().unwrap();
    let c = ClientReply::from_payload(&payload).unwrap();
    assert_eq!(c.status, 418);
    assert_eq!(c.body, "short and stout");
}

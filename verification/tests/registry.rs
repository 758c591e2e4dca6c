use tunnel::dashboard::dashboard_page;
use tunnel::registry::{TunnelInfo, TunnelManager};
use tunnel::session::SessionError;
use tunnel::types::RegisterPayload;

fn info(sub: &str, port: u16) -> TunnelInfo {
    TunnelInfo { subdomain: sub.to_string(), local_port: port, connected_at: "t".to_string() }
}

#[test]
fn register_then_route() {
    let mut m: TunnelManager<u32> = TunnelManager::new("secret".to_string());
    assert!(m.route("a").is_none());
    m.register("a".to_string(), 3000, 1);
    m.register_at(info("b", 4000), 2);
    assert_eq!(m.route("a"), Some(&1));
    assert_eq!(m.route("b"), Some(&2));
    assert_eq!(m.route("c"), None);
    let l = m.list();
    assert_eq!(l.len(), 2);
    assert_eq!(l[0].subdomain, "a");
    assert_eq!(l[0].local_port, 3000);
    assert!(!l[0].connected_at.is_empty());
    assert_eq!(l[1].subdomain, "b");
}

#[test]
fn register_same_subdomain_replaces() {
    let mut m: TunnelManager<&str> = TunnelManager::new("t".to_string());
    m.register_at(info("a", 1), "first");
    m.register_at(info("z", 2), "other");
    m.register_at(info("a", 5), "second");
    assert_eq!(m.route("a"), Some(&"second"));
    let l = m.list();
    assert_eq!(l.len(), 2);
    assert_eq!(l[0].subdomain, "a");
    assert_eq!(l[0].local_port, 5);
}

#[test]
fn unregister_removes_only_that_tunnel() {
    let mut m: TunnelManager<u8> = TunnelManager::new("t".to_string());
    m.register_at(info("a", 1), 1);
    m.register_at(info("b", 2), 2);
    m.register_at(info("c", 3), 3);
    m.unregister("b");
    assert_eq!(m.route("b"), None);
    assert_eq!(m.route("a"), Some(&1));
    assert_eq!(m.route("c"), Some(&3));
    m.unregister("nothing");
    assert_eq!(m.list().len(), 2);
}

#[test]
fn token_check() {
    let m: TunnelManager<()> = TunnelManager::new("devtoken".to_string());
    assert!(m.accepts_token("devtoken"));
    assert!(!m.accepts_token("devtoken "));
    assert!(!m.accepts_token(""));
}

#[test]
fn accept_client_checks_token() {
    let mut m: TunnelManager<u8> = TunnelManager::new("tok".to_string());
    let bad = RegisterPayload { subdomain: "x".to_string(), local_port: 80, token: "nope".to_string() };
    assert_eq!(m.accept_client(&bad, 1), Err(SessionError::InvalidToken));
    assert!(m.route("x").is_none());
    let good = RegisterPayload { subdomain: "x".to_string(), local_port: 80, token: "tok".to_string() };
    assert_eq!(m.accept_client(&good, 2), Ok(()));
    assert_eq!(m.route("x"), Some(&2));
    assert_eq!(m.list()[0].local_port, 80);
}

#[test]
fn dashboard_lists_tunnels() {
    let page = dashboard_page(&vec![info("dev-1", 3000), info("api", 8)]);
    assert!(page.starts_with("<!DOCTYPE html>\n<html><head><title>Tunnel Dashboard</title>"));
    assert!(page.contains(
        "<tr><td>dev-1</td><td>3000</td><td>t</td><td class=\"status-online\">online</td></tr><tr><td>api</td><td>8</td>"
    ));
    assert!(page.ends_with("</table>\n<p><a href=\\\"/_tunnel/health\\\">Health check</a></p></body></html>"));
}

#[test]
fn dashboard_ports() {
    for port in [0u16, 9, 10, 65535] {
        let page = dashboard_page(&vec![info("s", port)]);
        assert!(page.contains(&format!("<td>{}</td>", port)));
    }
}

#[test]
fn connection_time_is_utc_rfc3339() {
    let mut m: TunnelManager<u32> = TunnelManager::new("secret".to_string());
    m.register("a".to_string(), 3000, 1);
    let at = m.list()[0].connected_at.clone();
    assert!(at.len() >= 25, "{at}");
    assert!(at.ends_with("+00:00"), "{at}");
    assert_eq!(at.as_bytes()[4], b'-');
    assert_eq!(at.as_bytes()[10], b'T');
}

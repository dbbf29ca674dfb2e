use actix_ipware::{Applied, Behavior, Endpoint, HeaderView, IpWare, Middleware};

fn text(v: &[char]) -> String {
    v.iter().collect()
}

fn endpoint(host: &str, port: u16) -> Endpoint {
    Endpoint { host: host.chars().collect(), port }
}

fn shown(e: &Option<Endpoint>) -> Option<String> {
    e.as_ref().map(|x| format!("{}:{}", text(&x.host), x.port))
}

fn forwarded(value: &str) -> HeaderView {
    let mut h = HeaderView::new();
    h.append("X-Forwarded-For", value);
    h
}

#[test]
fn test_overwrite() {
    let ipware = IpWare::empty().proxy_count(Some(0)).trust_header("x-forwarded-for");
    let mw = Middleware::new(ipware);
    let headers = forwarded("1.2.3.4");
    let Applied { peer, attachment } = mw.apply(&headers, Some(endpoint("127.0.0.1", 8000)));
    assert_eq!(shown(&peer).unwrap(), "1.2.3.4:8000");
    assert_eq!(shown(&attachment).unwrap(), "127.0.0.1:8000");
}

#[test]
fn test_extension() {
    let ipware = IpWare::empty().proxy_count(Some(0)).trust_header("x-forwarded-for");
    let mw = Middleware::new(ipware).behavior(Behavior::Extension);
    let headers = forwarded("1.2.3.4:8000");
    let Applied { peer, attachment } = mw.apply(&headers, Some(endpoint("127.0.0.1", 8000)));
    assert_eq!(shown(&peer).unwrap(), "127.0.0.1:8000");
    assert_eq!(shown(&attachment).unwrap(), "1.2.3.4:8000");
}

#[test]
fn untrusted_answer_is_not_applied_by_default() {
    let ipware = IpWare::empty().trust_header("x-forwarded-for");
    let headers = forwarded("1.2.3.4, 5.6.7.8");
    let peer = Some(endpoint("127.0.0.1", 8000));
    let Applied { peer: p, attachment } = Middleware::new(ipware).apply(&headers, peer);
    assert_eq!(shown(&p).unwrap(), "127.0.0.1:8000");
    assert_eq!(shown(&attachment).unwrap(), "127.0.0.1:8000");
}

#[test]
fn untrusted_answer_applied_when_allowed() {
    let ipware = IpWare::empty().trust_header("x-forwarded-for");
    let headers = forwarded("1.2.3.4, 5.6.7.8");
    let mw = Middleware::new(ipware).allow_untrusted(true);
    let Applied { peer, attachment } = mw.apply(&headers, Some(endpoint("127.0.0.1", 8000)));
    assert_eq!(shown(&peer).unwrap(), "1.2.3.4:8000");
    assert_eq!(shown(&attachment).unwrap(), "127.0.0.1:8000");
}

#[test]
fn missing_peer_gives_port_zero() {
    let ipware = IpWare::empty().proxy_count(Some(0)).trust_header("x-forwarded-for");
    let mw = Middleware::new(ipware).behavior(Behavior::Extension);
    let Applied { peer, attachment } = mw.apply(&forwarded("1.2.3.4"), None);
    assert!(peer.is_none());
    assert_eq!(shown(&attachment).unwrap(), "1.2.3.4:0");
}

#[test]
fn extension_without_answer_attaches_nothing() {
    let ipware = IpWare::empty().proxy_count(Some(0)).trust_header("x-forwarded-for");
    let mw = Middleware::new(ipware).behavior(Behavior::Extension).strict(true);
    let Applied { peer, attachment } = mw.apply(&forwarded("1.2.3.4, 5.6.7.8"), Some(endpoint("127.0.0.1", 80)));
    assert_eq!(shown(&peer).unwrap(), "127.0.0.1:80");
    assert!(attachment.is_none());
}

use load_thing::config::structure::ProxyConfig;
use load_thing::network::session::{client_address, ClientEvent, ClientSession, Phase, ProxyAction};

fn config(target: &str, port: u16, path: &str) -> ProxyConfig {
    ProxyConfig { target: target.to_string(), port, path: path.to_string() }
}

#[test]
fn new_session_cleans_target() {
    let s = ClientSession::new(&config("https://https://api.example//", 8443, "/v1"), "1.1.1.1".into());
    assert!(s.tls);
    assert_eq!(s.clean_host, "api.example");
    assert_eq!(s.target_addr, "api.example:8443/v1");
    assert!(s.phase == Phase::ReadRequest);
    let plain = ClientSession::new(&config("http://localhost", 80, "/"), "ip".into());
    assert!(!plain.tls);
    assert_eq!(plain.target_addr, "localhost:80/");
}

#[test]
fn plain_session_full_flow() {
    let mut s = ClientSession::new(&config("http://up", 80, ""), "9.9.9.9".into());
    let a = s.step(ClientEvent::RequestRead(Some(b"GET /z HTTP/1.1\r\n\r\n".to_vec())));
    assert!(matches!(&a[..], [ProxyAction::Connect(addr)] if addr == "up:80"));
    let a = s.step(ClientEvent::Connected(Ok(())));
    match &a[..] {
        [ProxyAction::NotifyPlugins(ip, path), ProxyAction::WriteUpstream(bytes)] => {
            assert_eq!(ip, "9.9.9.9");
            assert_eq!(path, "/z");
            assert_eq!(bytes.as_slice(), b"GET /z HTTP/1.1\r\n\r\nHost: up\r\n\r\n");
        }
        _ => panic!("unexpected actions"),
    }
    let a = s.step(ClientEvent::RequestWritten(Ok(7)));
    match &a[..] {
        [ProxyAction::Record(r), ProxyAction::ReadUpstream] => {
            assert_eq!(r.location, "http://up");
            assert_eq!(r.target, "http://up");
            assert_eq!(r.path, "/z");
            assert_eq!(r.ip, "9.9.9.9");
            assert_eq!(r.time, 7);
        }
        _ => panic!("unexpected actions"),
    }
    let a = s.step(ClientEvent::ResponseRead(Ok(b"HTTP/1.1 200 OK\r\n".to_vec())));
    assert!(matches!(&a[..], [ProxyAction::WriteClient(b)] if b.as_slice() == b"HTTP/1.1 200 OK\r\n"));
    let a = s.step(ClientEvent::ResponseWritten(Ok(())));
    assert!(matches!(&a[..], [ProxyAction::ReadUpstream]));
    let a = s.step(ClientEvent::ResponseRead(Ok(Vec::new())));
    assert!(matches!(&a[..], [ProxyAction::Close]));
    assert!(s.phase == Phase::Done);
    assert!(s.step(ClientEvent::ResponseRead(Ok(vec![1]))).is_empty());
}

#[test]
fn empty_read_closes() {
    let mut s = ClientSession::new(&config("http://up", 80, ""), "ip".into());
    let a = s.step(ClientEvent::RequestRead(Some(Vec::new())));
    assert!(matches!(&a[..], [ProxyAction::Close]));
    let mut s = ClientSession::new(&config("http://up", 80, ""), "ip".into());
    let a = s.step(ClientEvent::RequestRead(None));
    assert!(matches!(&a[..], [ProxyAction::Close]));
}

#[test]
fn connect_failure_answers_bad_gateway() {
    let mut s = ClientSession::new(&config("http://up", 81, "/p"), "ip".into());
    s.step(ClientEvent::RequestRead(Some(b"GET / HTTP/1.1\r\n".to_vec())));
    let a = s.step(ClientEvent::Connected(Err("refused".into())));
    match &a[..] {
        [ProxyAction::Report(code, detail), ProxyAction::Reply(reply), ProxyAction::Close] => {
            assert_eq!(*code, 4);
            assert_eq!(detail, "while connecting to: up:81/p: refused");
            assert_eq!(reply, "HTTP/1.1 502 Bad Gateway\r\n\r\n");
        }
        _ => panic!("unexpected actions"),
    }
}

#[test]
fn tls_session_flow_and_failures() {
    let mut s = ClientSession::new(&config("https://secure", 443, ""), "ip".into());
    s.step(ClientEvent::RequestRead(Some(b"GET / HTTP/1.1\r\n".to_vec())));
    let a = s.step(ClientEvent::Connected(Ok(())));
    assert!(matches!(&a[..], [ProxyAction::NotifyPlugins(_, _), ProxyAction::CreateTls]));
    let a = s.step(ClientEvent::TlsCreated(Ok(())));
    assert!(matches!(&a[..], [ProxyAction::Handshake(d)] if d == "secure"));
    let a = s.step(ClientEvent::Handshaken(Ok(())));
    assert!(matches!(&a[..], [ProxyAction::WriteUpstream(b)] if b.as_slice() == b"GET / HTTP/1.1\r\nHost: secure\r\n\r\n"));
    let a = s.step(ClientEvent::RequestWritten(Err("broken".into())));
    match &a[..] {
        [ProxyAction::Report(code, detail), ProxyAction::Close] => {
            assert_eq!(*code, 5);
            assert_eq!(detail, "while attempting to stream : broken");
        }
        _ => panic!("unexpected actions"),
    }

    let mut s = ClientSession::new(&config("https://secure", 443, ""), "ip".into());
    s.step(ClientEvent::RequestRead(Some(b"x".to_vec())));
    s.step(ClientEvent::Connected(Ok(())));
    let a = s.step(ClientEvent::TlsCreated(Err("no tls".into())));
    match &a[..] {
        [ProxyAction::Report(5, detail), ProxyAction::Reply(_), ProxyAction::Close] => {
            assert_eq!(detail, "while creating TLSConnector : no tls");
        }
        _ => panic!("unexpected actions"),
    }
}

#[test]
fn relay_errors_differ_by_transport() {
    let mut s = ClientSession::new(&config("http://up", 80, ""), "ip".into());
    s.step(ClientEvent::RequestRead(Some(b"x".to_vec())));
    s.step(ClientEvent::Connected(Ok(())));
    s.step(ClientEvent::RequestWritten(Ok(0)));
    s.step(ClientEvent::ResponseRead(Ok(vec![1, 2])));
    let a = s.step(ClientEvent::ResponseWritten(Err("gone".into())));
    assert!(matches!(&a[..], [ProxyAction::Report(6, d), ProxyAction::Close] if d == "while writing to client : gone"));

    let mut s = ClientSession::new(&config("https://up", 80, ""), "ip".into());
    s.step(ClientEvent::RequestRead(Some(b"x".to_vec())));
    s.step(ClientEvent::Connected(Ok(())));
    s.step(ClientEvent::TlsCreated(Ok(())));
    s.step(ClientEvent::Handshaken(Ok(())));
    s.step(ClientEvent::RequestWritten(Ok(0)));
    let a = s.step(ClientEvent::ResponseRead(Err("reset".into())));
    assert!(matches!(&a[..], [ProxyAction::Report(5, d), ProxyAction::Close] if d == "while reading from TLS server : reset"));
}

#[test]
fn unexpected_event_is_ignored() {
    let mut s = ClientSession::new(&config("http://up", 80, ""), "ip".into());
    assert!(s.step(ClientEvent::Connected(Ok(()))).is_empty());
    assert!(s.phase == Phase::ReadRequest);
}

#[test]
fn client_address_falls_back_to_unknown() {
    assert_eq!(client_address(Some("10.0.0.1".to_string())), "10.0.0.1");
    assert_eq!(client_address(None), "unknown");
}

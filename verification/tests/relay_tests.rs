use load_thing::host_proxy::relay::{RelayAction, RelayEvent, RelayPhase, RelaySession};

#[test]
fn relay_forwards_request_as_sent() {
    let mut s = RelaySession::new();
    let request = b"GET /p HTTP/1.1\r\nHost: example.org:8081\r\n\r\n".to_vec();
    let a = s.step(RelayEvent::RequestRead(Some(request.clone()), 3));
    match &a[..] {
        [RelayAction::Record(r), RelayAction::Connect(addr)] => {
            assert_eq!(r.location, "example.org");
            assert_eq!(r.target, "example.org");
            assert_eq!(r.path, "/p");
            assert_eq!(r.time, 3);
            assert_eq!(addr, "example.org:8081");
        }
        _ => panic!("unexpected actions"),
    }
    let a = s.step(RelayEvent::Connected(Ok(())));
    assert!(matches!(&a[..], [RelayAction::WriteUpstream(b)] if *b == request));
    let a = s.step(RelayEvent::RequestWritten(Ok(())));
    assert!(matches!(&a[..], [RelayAction::ReadUpstream]));
    let a = s.step(RelayEvent::ResponseRead(Ok(b"ok".to_vec())));
    assert!(matches!(&a[..], [RelayAction::WriteClient(b)] if b.as_slice() == b"ok"));
    let a = s.step(RelayEvent::ResponseWritten(Err("reset".into())));
    assert!(matches!(&a[..], [RelayAction::Log(l), RelayAction::Close] if l == "Failed to write to client: reset"));
    assert!(s.phase == RelayPhase::Done);
    assert!(s.step(RelayEvent::ResponseRead(Ok(vec![1]))).is_empty());
}

#[test]
fn relay_without_host_is_dropped() {
    let mut s = RelaySession::new();
    let a = s.step(RelayEvent::RequestRead(Some(b"GET / HTTP/1.1\r\n".to_vec()), 0));
    assert!(matches!(&a[..], [RelayAction::Log(l), RelayAction::Close] if l == "No host found in request"));
    let mut s = RelaySession::new();
    let a = s.step(RelayEvent::RequestRead(Some(Vec::new()), 0));
    assert!(matches!(&a[..], [RelayAction::Close]));
}

#[test]
fn relay_connect_failure_replies_bad_gateway() {
    let mut s = RelaySession::new();
    s.step(RelayEvent::RequestRead(Some(b"Host: h\r\n".to_vec()), 0));
    let a = s.step(RelayEvent::Connected(Err("refused".into())));
    match &a[..] {
        [RelayAction::Log(l), RelayAction::Reply(r), RelayAction::Close] => {
            assert_eq!(l, "Failed to connect to h:80: refused");
            assert_eq!(r, "HTTP/1.1 502 Bad Gateway\r\n\r\n");
        }
        _ => panic!("unexpected actions"),
    }
}

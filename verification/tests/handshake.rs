use http_tunnel::tunnel::{Handshake, HandshakeAction, HandshakeEvent, TunnelState};

#[test]
fn success_path_orders_resolve_connect_and_the_200_line() {
    let mut h = Handshake::new();
    assert_eq!(h.state, TunnelState::AwaitingRequest);

    let a = h.step::<u32>(HandshakeEvent::Data(
        b"CONNECT example.com:443 HTTP/1.1\r\n\r\n".to_vec(),
    ));
    assert_eq!(a, HandshakeAction::Resolve(String::from("example.com:443")));
    assert_eq!(h.state, TunnelState::Resolving);

    let a = h.step(HandshakeEvent::Resolved(7u32));
    assert_eq!(a, HandshakeAction::Connect(7u32));
    assert_eq!(h.state, TunnelState::Connecting);

    let a = h.step::<u32>(HandshakeEvent::Connected);
    assert_eq!(
        a,
        HandshakeAction::RespondAndRelay(b"HTTP/1.1 200 OK\r\n\r\n".to_vec())
    );
    assert_eq!(h.state, TunnelState::Relaying);
}

#[test]
fn partial_request_needs_more_data_then_decodes_whole_buffer() {
    let mut h = Handshake::new();
    let a = h.step::<u32>(HandshakeEvent::Data(b"CONNECT exam".to_vec()));
    assert_eq!(a, HandshakeAction::NeedMoreData);
    assert_eq!(h.state, TunnelState::AwaitingRequest);

    let a = h.step::<u32>(HandshakeEvent::Data(b"ple.com:443 HTTP/1.1\r\n\r\n".to_vec()));
    assert_eq!(a, HandshakeAction::Resolve(String::from("example.com:443")));
    assert_eq!(h.state, TunnelState::Resolving);
}

#[test]
fn malformed_request_closes_with_no_response() {
    let mut h = Handshake::new();
    let a = h.step::<u32>(HandshakeEvent::Data(b"GET / HTTP/1.1\r\n".to_vec()));
    assert_eq!(a, HandshakeAction::CloseSilently);
    assert_eq!(h.state, TunnelState::Failed);
}

#[test]
fn oversized_request_closes_with_no_response() {
    let mut h = Handshake::new();
    let a = h.step::<u32>(HandshakeEvent::Data(vec![b'a'; 2048]));
    assert_eq!(a, HandshakeAction::NeedMoreData);
    let a = h.step::<u32>(HandshakeEvent::Data(b"\r\n".to_vec()));
    assert_eq!(a, HandshakeAction::CloseSilently);
    assert_eq!(h.state, TunnelState::Failed);
}

#[test]
fn resolver_failure_closes_with_no_response() {
    let mut h = Handshake::new();
    let a = h.step::<u32>(HandshakeEvent::Data(
        b"CONNECT nowhere.invalid:1 HTTP/1.1\r\n\r\n".to_vec(),
    ));
    assert_eq!(a, HandshakeAction::Resolve(String::from("nowhere.invalid:1")));
    let a = h.step::<u32>(HandshakeEvent::ResolveFailed);
    assert_eq!(a, HandshakeAction::CloseSilently);
    assert_eq!(h.state, TunnelState::Failed);
}

#[test]
fn refused_connect_answers_with_the_400_line_then_closes() {
    let mut h = Handshake::new();
    h.step::<u32>(HandshakeEvent::Data(
        b"CONNECT 127.0.0.1:1 HTTP/1.1\r\n\r\n".to_vec(),
    ));
    h.step(HandshakeEvent::Resolved(1u32));
    let a = h.step::<u32>(HandshakeEvent::ConnectRefused);
    assert_eq!(
        a,
        HandshakeAction::RespondAndClose(b"HTTP/1.1 400 BAD_REQUEST\r\n\r\n".to_vec())
    );
    assert_eq!(h.state, TunnelState::Failed);
}

#[test]
fn connect_deadline_answers_with_the_408_line_then_closes() {
    let mut h = Handshake::new();
    h.step::<u32>(HandshakeEvent::Data(
        b"CONNECT 10.255.255.1:81 HTTP/1.1\r\n\r\n".to_vec(),
    ));
    h.step(HandshakeEvent::Resolved(2u32));
    let a = h.step::<u32>(HandshakeEvent::ConnectTimedOut);
    assert_eq!(
        a,
        HandshakeAction::RespondAndClose(b"HTTP/1.1 408 Timeout\r\n\r\n".to_vec())
    );
    assert_eq!(h.state, TunnelState::Failed);
}

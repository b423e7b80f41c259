//! Tests of the server: the dispatcher's decisions, the registry count at
//! quiescent points, and whole connection lifecycles.

use echo_server::addr::PeerAddr;
use echo_server::codec::encode;
use echo_server::handler::{run_connection, CloseReason, HandlerState};
use echo_server::server::{AcceptEvent, DispatchDecision, Server};

fn peer(port: u16) -> PeerAddr {
    PeerAddr { ip: 0x7F00_0001, port }
}

#[test]
fn fresh_server_has_no_connections() {
    let s = Server::new();
    assert_eq!(s.conns_num(), 0);
}

#[test]
fn count_tracks_opens_and_closes() {
    let mut s = Server::new();
    let k: u16 = 5;
    let mut conns = Vec::new();
    for port in 0..k {
        conns.push(s.client_connected(peer(9000 + port)));
    }
    assert_eq!(s.conns_num(), 5);
    let j = 2;
    for mut c in conns.drain(0..j) {
        c.on_recv(Ok(echo_server::codec::Decoded::EndOfStream));
        s.connection_closed(c);
    }
    assert_eq!(s.conns_num(), 5 - j);
}

#[test]
fn accepted_peer_is_handled_and_registered() {
    let mut s = Server::new();
    let d = s.on_accept(AcceptEvent::Accepted(peer(9100)));
    match d {
        DispatchDecision::Handle(c) => {
            assert_eq!(c.addr, peer(9100));
            assert!(matches!(c.state, HandlerState::Receiving));
        }
        _ => panic!("an accepted connection must be handled"),
    }
    assert_eq!(s.conns_num(), 1);
    assert!(s.is_connected(peer(9100)));
}

#[test]
fn recoverable_accept_failure_keeps_accepting() {
    let mut s = Server::new();
    s.client_connected(peer(9200));
    let d = s.on_accept(AcceptEvent::RecoverableFailure);
    assert!(matches!(d, DispatchDecision::KeepAccepting));
    assert_eq!(s.conns_num(), 1);
}

#[test]
fn fatal_accept_failure_shuts_down() {
    let mut s = Server::new();
    let d = s.on_accept(AcceptEvent::FatalFailure);
    assert!(matches!(d, DispatchDecision::Shutdown));
    assert_eq!(s.conns_num(), 0);
}

#[test]
fn ping_is_echoed_and_count_decrements() {
    // a client connects, sends the frame "ping", gets exactly "ping" back,
    // closes its socket, and the registry count drops by one
    let mut s = Server::new();
    let a = peer(9300);
    let conn = s.client_connected(a);
    assert_eq!(s.conns_num(), 1);

    let stream = encode(&vec![b'p', b'i', b'n', b'g']);
    let (echoed, closed) = run_connection(conn, &stream);
    assert_eq!(echoed, stream);
    assert!(matches!(
        closed.state,
        HandlerState::Closed(CloseReason::CleanDisconnect)
    ));

    s.connection_closed(closed);
    assert_eq!(s.conns_num(), 0);
    assert!(!s.is_connected(a));
}

#[test]
fn malformed_peer_is_dropped_without_touching_others() {
    // one well-behaved connection and one that sends a truncated length
    // prefix: the bad one is removed from the registry, the good one's echo
    // traffic is unaffected
    let mut s = Server::new();
    let good = peer(9400);
    let bad = peer(9401);

    let good_conn = s.client_connected(good);
    assert_eq!(s.conns_num(), 1);

    let bad_out = s.serve_connection(bad, &vec![0u8, 0]);
    assert!(bad_out.is_empty());
    assert!(!s.is_connected(bad));
    assert!(s.is_connected(good));
    assert_eq!(s.conns_num(), 1);

    let stream = encode(&vec![b'o', b'k']);
    let (echoed, closed) = run_connection(good_conn, &stream);
    assert_eq!(echoed, stream);
    assert!(matches!(
        closed.state,
        HandlerState::Closed(CloseReason::CleanDisconnect)
    ));
    s.connection_closed(closed);
    assert_eq!(s.conns_num(), 0);
}

#[test]
fn serve_connection_echoes_whole_clean_stream() {
    let mut s = Server::new();
    let mut stream = encode(&vec![1u8, 2, 3]);
    stream.extend(encode(&Vec::new()));
    stream.extend(encode(&vec![4u8]));
    let out = s.serve_connection(peer(9500), &stream);
    assert_eq!(out, stream);
    assert_eq!(s.conns_num(), 0);
}

#[test]
fn distinct_peers_have_distinct_registry_entries() {
    let mut s = Server::new();
    s.client_connected(PeerAddr { ip: 1, port: 2 });
    s.client_connected(PeerAddr { ip: 2, port: 1 });
    s.client_connected(PeerAddr { ip: 1, port: 3 });
    assert_eq!(s.conns_num(), 3);
}

use quic_core::connection::{Connection, ConnectionPhase, Timers};
use quic_core::send_stream::ConnectionError;
use quic_core::streams::SendStreamState;

#[test]
fn lifecycle_handshake_close_drain() {
    let mut c = Connection::new(333);
    assert_eq!(c.phase, ConnectionPhase::Handshaking);
    c.on_handshake_confirmed();
    assert_eq!(c.phase, ConnectionPhase::Established);
    c.close(ConnectionError::LocallyClosed, 1_000);
    assert_eq!(c.phase, ConnectionPhase::Closing);
    assert_eq!(c.error, Some(ConnectionError::LocallyClosed));
    assert_eq!(c.drain_deadline, Some(1_000 + 3 * 333));
    // too early: still closing
    c.on_drain_timeout(1_500);
    assert_eq!(c.phase, ConnectionPhase::Closing);
    c.on_drain_timeout(1_999);
    assert_eq!(c.phase, ConnectionPhase::Drained);
}

#[test]
fn peer_close_drains() {
    let mut c = Connection::new(100);
    c.on_peer_close(ConnectionError::ApplicationClosed(0), 50);
    assert_eq!(c.phase, ConnectionPhase::Draining);
    assert_eq!(c.error, Some(ConnectionError::ApplicationClosed(0)));
    assert_eq!(c.drain_deadline, Some(350));
    // a second close keeps the first reason
    c.on_peer_close(ConnectionError::Reset, 60);
    assert_eq!(c.error, Some(ConnectionError::ApplicationClosed(0)));
}

#[test]
fn idle_timeout_drains_without_packets() {
    let mut c = Connection::new(100);
    c.on_handshake_confirmed();
    c.on_idle_timeout();
    assert_eq!(c.phase, ConnectionPhase::Drained);
    assert_eq!(c.error, Some(ConnectionError::TimedOut));
}

#[test]
fn no_stream_frames_after_close() {
    let mut c = Connection::new(100);
    c.on_handshake_confirmed();
    let mut stream = SendStreamState::new(1024);
    assert_eq!(stream.write(b"queued", 1024), Ok(6));
    assert!(c.can_emit_data());
    assert!(c.poll_stream_transmit(&mut stream, 100).is_some());
    c.close(ConnectionError::LocallyClosed, 0);
    assert!(!c.can_emit_data());
    // buffered data stays queued, but nothing more is emitted
    assert!(c.poll_stream_transmit(&mut stream, 100).is_none());
    assert_eq!(stream.pending, b"queued".to_vec());
}

#[test]
fn next_timeout_is_earliest_armed_deadline() {
    let mut t = Timers::new();
    assert_eq!(t.next_timeout(), None);
    t.idle = Some(900);
    assert_eq!(t.next_timeout(), Some(900));
    t.loss_detection = Some(400);
    t.pacing = Some(450);
    assert_eq!(t.next_timeout(), Some(400));
    t.close = Some(100);
    assert_eq!(t.next_timeout(), Some(100));
    t.close = None;
    assert_eq!(t.next_timeout(), Some(400));
}

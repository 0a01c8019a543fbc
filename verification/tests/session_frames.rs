use ketalk::messages::ClientWsMessageType;
use ketalk::session::{
    HeartbeatAction, InboundFrame, TransportReply, WsConn, CLIENT_TIMEOUT_MS,
};

fn session() -> WsConn {
    WsConn::new(1, 42, "alice".to_string(), 1000)
}

#[test]
fn ping_resets_heartbeat_and_replies_pong() {
    let mut s = session();
    let out = s.handle_frame(InboundFrame::Ping(b"PING".to_vec()), 4000);
    assert_eq!(s.hb, 4000);
    assert_eq!(out.reply, Some(TransportReply::Pong(b"PING".to_vec())));
    assert!(out.event.is_none());
    assert!(!out.stop);
}

#[test]
fn pong_resets_heartbeat_silently() {
    let mut s = session();
    let out = s.handle_frame(InboundFrame::Pong, 6000);
    assert_eq!(s.hb, 6000);
    assert!(out.reply.is_none());
    assert!(out.event.is_none());
    assert!(!out.stop);
}

#[test]
fn binary_is_echoed() {
    let mut s = session();
    let out = s.handle_frame(InboundFrame::Binary(vec![1, 2, 3]), 2000);
    assert_eq!(out.reply, Some(TransportReply::Binary(vec![1, 2, 3])));
    assert!(!out.stop);
}

#[test]
fn close_acknowledges_reports_closed_and_stops() {
    let mut s = session();
    let out = s.handle_frame(InboundFrame::Close, 2000);
    assert_eq!(out.reply, Some(TransportReply::Close));
    assert!(out.stop);
    let ev = out.event.unwrap();
    assert_eq!(ev.user_id, 1);
    assert_eq!(ev.user_name, "alice");
    assert_eq!(ev.room_id, 42);
    assert_eq!(ev.msg.message_type, ClientWsMessageType::Closed);
    assert_eq!(ev.msg.message, "");
}

#[test]
fn text_frame_is_parsed_and_forwarded() {
    let mut s = session();
    let out = s.handle_frame(
        InboundFrame::Text("{\"messageType\":\"Message\",\"message\":\"hey\"}".to_string()),
        2000,
    );
    assert!(!out.stop);
    let ev = out.event.unwrap();
    assert_eq!(ev.user_id, 1);
    assert_eq!(ev.user_name, "alice");
    assert_eq!(ev.room_id, 42);
    assert_eq!(ev.msg.message_type, ClientWsMessageType::Message);
    assert_eq!(ev.msg.message, "hey");
}

#[test]
fn malformed_text_stops_without_forwarding() {
    let mut s = session();
    let out = s.handle_frame(InboundFrame::Text("not json".to_string()), 2000);
    assert!(out.stop);
    assert!(out.event.is_none());
    assert!(out.reply.is_none());
}

#[test]
fn continuation_and_errors_stop_the_session() {
    let mut s = session();
    let out = s.handle_frame(InboundFrame::Continuation, 2000);
    assert!(out.stop);
    let mut s = session();
    let out = s.handle_frame(InboundFrame::Error, 2000);
    assert!(out.stop);
    assert!(out.event.is_none());
}

#[test]
fn nop_does_nothing() {
    let mut s = session();
    let out = s.handle_frame(InboundFrame::Nop, 2000);
    assert!(!out.stop);
    assert!(out.reply.is_none());
    assert!(out.event.is_none());
    assert_eq!(s.hb, 1000);
}

#[test]
fn heartbeat_timeout_disconnects() {
    // No ping or pong arrives after creation at 1000; once the silence
    // exceeds the timeout window the session disconnects on its own.
    let s = session();
    assert_eq!(s.heartbeat_tick(1000 + CLIENT_TIMEOUT_MS), HeartbeatAction::SendPing);
    assert_eq!(
        s.heartbeat_tick(1000 + CLIENT_TIMEOUT_MS + 1),
        HeartbeatAction::DisconnectAndStop
    );
    let d = s.disconnect_request();
    assert_eq!(d.user_id, 1);
    assert_eq!(d.room_id, 42);
}

#[test]
fn heartbeat_survives_while_peer_responds() {
    let mut s = session();
    s.handle_frame(InboundFrame::Pong, 9000);
    assert_eq!(s.heartbeat_tick(15000), HeartbeatAction::SendPing);
}

#[test]
fn connect_request_carries_room_and_user() {
    let s = session();
    let c = s.connect_request(77);
    assert_eq!(c.addr, 77);
    assert_eq!(c.lobby_id, 42);
    assert_eq!(c.user_id, 1);
}

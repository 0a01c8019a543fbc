//! One client connection's protocol state machine: heartbeat bookkeeping
//! and the translation of transport frames into domain events. The
//! surrounding runtime owns the transport; it feeds frames and clock
//! readings in and performs the replies, registry sends and stops that the
//! machine decides on.

use vstd::prelude::*;

use crate::json::parse_client_frame;
use crate::json::spec_parse_client_frame;
use crate::messages::ClientActorMessage;
use crate::messages::ClientWsMessage;
use crate::messages::ClientWsMessageType;
use crate::messages::Connect;
use crate::messages::Disconnect;
use crate::messages::SinkId;

verus! {

/// How often a session pings its peer, in milliseconds.
pub const HEARTBEAT_INTERVAL_MS: u64 = 5000;

/// How long a session tolerates silence before it disconnects itself, in
/// milliseconds.
pub const CLIENT_TIMEOUT_MS: u64 = 10000;

/// One inbound transport frame, or a transport error.
pub enum InboundFrame {
    Ping(Vec<u8>),
    Pong,
    Binary(Vec<u8>),
    Close,
    Continuation,
    Nop,
    Text(String),
    Error,
}

/// A reply the session asks the transport to write.
#[derive(Debug, PartialEq)]
pub enum TransportReply {
    Pong(Vec<u8>),
    Binary(Vec<u8>),
    Close,
}

/// Everything one frame makes the session do: at most one transport
/// reply, at most one event for the registry, and whether the session
/// stops. A stopped session unconditionally follows up with its
/// disconnect request.
pub struct SessionOutput {
    pub reply: Option<TransportReply>,
    pub event: Option<ClientActorMessage>,
    pub stop: bool,
}

/// What the heartbeat timer does when it fires.
#[derive(Clone, Copy, Debug, PartialEq, Eq, Structural)]
pub enum HeartbeatAction {
    SendPing,
    DisconnectAndStop,
}

/// One live connection: who is connected, to which room, under what
/// display name, and when the peer was last heard from.
pub struct WsConn {
    pub user_id: i64,
    pub hb: u64,
    pub room: i64,
    pub user_name: String,
}

/// Whether `b` is `a` with the heartbeat clock reset to `hb`.
pub open spec fn same_but_hb(a: WsConn, b: WsConn, hb: u64) -> bool {
    &&& b.user_id == a.user_id
    &&& b.room == a.room
    &&& b.user_name == a.user_name
    &&& b.hb == hb
}

/// Whether `ev` is the event this session sends for the parsed client
/// message `(ty, body)`.
pub open spec fn is_session_event(
    s: WsConn,
    ev: ClientActorMessage,
    ty: ClientWsMessageType,
    body: Seq<char>,
) -> bool {
    &&& ev.user_id == s.user_id
    &&& ev.user_name@ == s.user_name@
    &&& ev.room_id == s.room
    &&& ev.msg.message_type == ty
    &&& ev.msg.message@ == body
}

/// What one frame does: a ping resets the heartbeat clock and is answered
/// with a pong; a pong resets the clock; binary data is echoed; a close is
/// acknowledged, reported to the registry as a `Closed` event, and stops
/// the session; a continuation or a transport error stops it; a text frame
/// is parsed as a client event and forwarded, and a malformed one stops
/// the session without forwarding anything.
pub open spec fn session_step_ok(
    s_old: WsConn,
    s_new: WsConn,
    frame: InboundFrame,
    now_ms: u64,
    out: SessionOutput,
) -> bool {
    match frame {
        InboundFrame::Ping(p) => {
            &&& same_but_hb(s_old, s_new, now_ms)
            &&& out.reply matches Some(TransportReply::Pong(q)) && q@ == p@
            &&& out.event is None
            &&& !out.stop
        },
        InboundFrame::Pong => {
            &&& same_but_hb(s_old, s_new, now_ms)
            &&& out.reply is None
            &&& out.event is None
            &&& !out.stop
        },
        InboundFrame::Binary(b) => {
            &&& s_new == s_old
            &&& out.reply matches Some(TransportReply::Binary(q)) && q@ == b@
            &&& out.event is None
            &&& !out.stop
        },
        InboundFrame::Close => {
            &&& s_new == s_old
            &&& out.reply matches Some(TransportReply::Close)
            &&& out.event matches Some(ev) && is_session_event(
                s_old,
                ev,
                ClientWsMessageType::Closed,
                Seq::<char>::empty(),
            )
            &&& out.stop
        },
        InboundFrame::Continuation => {
            &&& s_new == s_old
            &&& out.reply is None
            &&& out.event is None
            &&& out.stop
        },
        InboundFrame::Nop => {
            &&& s_new == s_old
            &&& out.reply is None
            &&& out.event is None
            &&& !out.stop
        },
        InboundFrame::Text(t) => {
            &&& s_new == s_old
            &&& out.reply is None
            &&& match spec_parse_client_frame(t@) {
                Some(p) => !out.stop && (out.event matches Some(ev) && is_session_event(
                    s_old,
                    ev,
                    p.0,
                    p.1,
                )),
                None => out.stop && out.event is None,
            }
        },
        InboundFrame::Error => {
            &&& s_new == s_old
            &&& out.reply is None
            &&& out.event is None
            &&& out.stop
        },
    }
}

impl WsConn {
    /// A fresh session, its heartbeat clock set to the creation time.
    pub fn new(user_id: i64, room: i64, user_name: String, now_ms: u64) -> (r: WsConn)
        ensures
            r.user_id == user_id,
            r.room == room,
            r.user_name == user_name,
            r.hb == now_ms,
    {
        WsConn { user_id, hb: now_ms, room, user_name }
    }

    /// The registration this session sends to the registry when it
    /// starts, carrying its own sink.
    pub fn connect_request(&self, addr: SinkId) -> (r: Connect)
        ensures
            r.addr == addr,
            r.lobby_id == self.room,
            r.user_id == self.user_id,
    {
        Connect { addr, lobby_id: self.room, user_id: self.user_id }
    }

    /// The notification this session sends to the registry when it
    /// stops, whatever made it stop.
    pub fn disconnect_request(&self) -> (r: Disconnect)
        ensures
            r.room_id == self.room,
            r.user_id == self.user_id,
    {
        Disconnect { room_id: self.room, user_id: self.user_id }
    }

    /// Handles one inbound frame at the given clock reading.
    pub fn handle_frame(&mut self, frame: InboundFrame, now_ms: u64) -> (out: SessionOutput)
        ensures
            session_step_ok(*old(self), *final(self), frame, now_ms, out),
    {
        match frame {
            InboundFrame::Ping(p) => {
                self.hb = now_ms;
                SessionOutput { reply: Some(TransportReply::Pong(p)), event: None, stop: false }
            },
            InboundFrame::Pong => {
                self.hb = now_ms;
                SessionOutput { reply: None, event: None, stop: false }
            },
            InboundFrame::Binary(b) => {
                SessionOutput { reply: Some(TransportReply::Binary(b)), event: None, stop: false }
            },
            InboundFrame::Close => {
                let ev = ClientActorMessage {
                    user_id: self.user_id,
                    user_name: self.user_name.clone(),
                    msg: ClientWsMessage {
                        message_type: ClientWsMessageType::Closed,
                        message: String::new(),
                    },
                    room_id: self.room,
                };
                SessionOutput { reply: Some(TransportReply::Close), event: Some(ev), stop: true }
            },
            InboundFrame::Continuation => {
                SessionOutput { reply: None, event: None, stop: true }
            },
            InboundFrame::Nop => {
                SessionOutput { reply: None, event: None, stop: false }
            },
            InboundFrame::Text(t) => {
                match parse_client_frame(t.as_str()) {
                    Some(m) => {
                        let ev = ClientActorMessage {
                            user_id: self.user_id,
                            user_name: self.user_name.clone(),
                            msg: m,
                            room_id: self.room,
                        };
                        SessionOutput { reply: None, event: Some(ev), stop: false }
                    },
                    None => {
                        SessionOutput { reply: None, event: None, stop: true }
                    },
                }
            },
            InboundFrame::Error => {
                SessionOutput { reply: None, event: None, stop: true }
            },
        }
    }

    /// What the heartbeat timer does when it fires at the given clock
    /// reading: it disconnects the session exactly when the peer has been
    /// silent for longer than the timeout window, and pings it otherwise.
    pub fn heartbeat_tick(&self, now_ms: u64) -> (r: HeartbeatAction)
        requires
            self.hb <= now_ms,
        ensures
            r == (if now_ms - self.hb > CLIENT_TIMEOUT_MS {
                HeartbeatAction::DisconnectAndStop
            } else {
                HeartbeatAction::SendPing
            }),
    {
        if now_ms - self.hb > CLIENT_TIMEOUT_MS {
            HeartbeatAction::DisconnectAndStop
        } else {
            HeartbeatAction::SendPing
        }
    }
}

} // verus!

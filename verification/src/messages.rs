//! The domain events and wire envelopes that sessions and the room registry
//! exchange. Sinks are plain tokens: the surrounding runtime owns the live
//! transport handles and maps each token to one of them.

use vstd::prelude::*;

verus! {

/// A token naming one connected client's outbound sink.
pub type SinkId = u64;

/// A frame already serialized for one client's transport; a session writes
/// it out verbatim.
#[derive(Debug, Clone, PartialEq)]
pub struct WsMessage(pub String);

/// Asks the registry to add a user's session to a room, registering the
/// given sink for that user.
pub struct Connect {
    pub addr: SinkId,
    pub lobby_id: i64,
    pub user_id: i64,
}

/// Tells the registry that a user's session for a room has ended.
pub struct Disconnect {
    pub room_id: i64,
    pub user_id: i64,
}

/// A structured client event, relayed by a session to the registry.
pub struct ClientActorMessage {
    pub user_id: i64,
    pub user_name: String,
    pub msg: ClientWsMessage,
    pub room_id: i64,
}

/// One inbound text frame, parsed: a tag and a message body.
#[derive(Debug, PartialEq)]
pub struct ClientWsMessage {
    pub message_type: ClientWsMessageType,
    pub message: String,
}

/// The tags a client may send. Only `Message` and `Closed` have defined
/// handling; the others are accepted and produce no effect.
#[derive(Clone, Copy, Debug, PartialEq, Eq, Structural)]
pub enum ClientWsMessageType {
    Message,
    Closed,
    Editing,
    MessageDelete,
}

/// The batched envelope sent to clients: one or more chat messages.
pub struct ServerActorMessages {
    pub messages: Vec<ServerActorMessage>,
}

/// One chat message as delivered to clients.
pub struct ServerActorMessage {
    pub message: String,
    pub sender_name: String,
    pub sender_id: i64,
    pub created_at: String,
}

/// The mathematical value of one delivered chat message.
#[verifier::ext_equal]
pub struct ServerMsgModel {
    pub message: Seq<char>,
    pub sender_name: Seq<char>,
    pub sender_id: int,
    pub created_at: Seq<char>,
}

impl View for ServerActorMessage {
    type V = ServerMsgModel;

    open spec fn view(&self) -> ServerMsgModel {
        ServerMsgModel {
            message: self.message@,
            sender_name: self.sender_name@,
            sender_id: self.sender_id as int,
            created_at: self.created_at@,
        }
    }
}

/// The models of a sequence of delivered messages, in order.
pub open spec fn server_msg_models(s: Seq<ServerActorMessage>) -> Seq<ServerMsgModel> {
    s.map_values(|m: ServerActorMessage| m@)
}

} // verus!

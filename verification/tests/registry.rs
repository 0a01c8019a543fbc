use ketalk::lobby::{Lobby, OutboundFrame, StoreCommand, StoredMessage};
use ketalk::messages::{
    ClientActorMessage, ClientWsMessage, ClientWsMessageType, Connect, Disconnect,
};

fn connect(user_id: i64, room: i64, addr: u64) -> Connect {
    Connect { addr, lobby_id: room, user_id }
}

fn text_event(user_id: i64, name: &str, room: i64, body: &str) -> ClientActorMessage {
    ClientActorMessage {
        user_id,
        user_name: name.to_string(),
        msg: ClientWsMessage {
            message_type: ClientWsMessageType::Message,
            message: body.to_string(),
        },
        room_id: room,
    }
}

fn sinks(frames: &[OutboundFrame]) -> Vec<u64> {
    frames.iter().map(|f| f.sink).collect()
}

#[test]
fn first_connect_gets_empty_history_only() {
    let mut lobby = Lobby::new();
    let frames = lobby.handle_connect(connect(1, 42, 101), &Vec::new());
    assert_eq!(frames.len(), 1);
    assert_eq!(frames[0].sink, 101);
    assert_eq!(frames[0].message.0, "{\"messages\":[]}");
}

#[test]
fn second_connect_notifies_existing_member() {
    let mut lobby = Lobby::new();
    lobby.handle_connect(connect(1, 42, 101), &Vec::new());
    let frames = lobby.handle_connect(connect(2, 42, 102), &Vec::new());
    assert_eq!(frames.len(), 2);
    assert_eq!(frames[0].sink, 101);
    assert_eq!(frames[0].message.0, "new user is connected: 2");
    assert_eq!(frames[1].sink, 102);
    assert_eq!(frames[1].message.0, "{\"messages\":[]}");
}

#[test]
fn text_broadcast_reaches_both_and_persists_with_same_timestamp() {
    let mut lobby = Lobby::new();
    lobby.handle_connect(connect(1, 42, 101), &Vec::new());
    lobby.handle_connect(connect(2, 42, 102), &Vec::new());
    let (frames, cmd) = lobby.handle_client_message_at(text_event(1, "alice", 42, "hello"), 0);
    let expected = "{\"messages\":[{\"message\":\"hello\",\"senderName\":\"alice\",\
                    \"senderId\":1,\"createdAt\":\"1970-01-01 00:00:00\"}]}";
    assert_eq!(sinks(&frames), vec![101, 102]);
    assert_eq!(frames[0].message.0, expected);
    assert_eq!(frames[1].message.0, expected);
    assert_eq!(
        cmd,
        Some(StoreCommand::InsertMessage {
            room_id: 42,
            sender_id: 1,
            sender_name: "alice".to_string(),
            body: "hello".to_string(),
            created_at_millis: 0,
        })
    );
}

#[test]
fn text_broadcast_stays_inside_its_room() {
    let mut lobby = Lobby::new();
    lobby.handle_connect(connect(1, 42, 101), &Vec::new());
    lobby.handle_connect(connect(2, 7, 202), &Vec::new());
    let (frames, _) = lobby.handle_client_message_at(text_event(1, "alice", 42, "hi"), 5);
    assert_eq!(sinks(&frames), vec![101]);
}

#[test]
fn disconnect_notifies_remaining_members_only() {
    let mut lobby = Lobby::new();
    lobby.handle_connect(connect(1, 42, 101), &Vec::new());
    lobby.handle_connect(connect(2, 42, 102), &Vec::new());
    lobby.handle_connect(connect(3, 42, 103), &Vec::new());
    let frames = lobby.handle_disconnect(Disconnect { room_id: 42, user_id: 2 });
    assert_eq!(sinks(&frames), vec![101, 103]);
    assert_eq!(frames[0].message.0, "user is disconnected: 2");
    assert_eq!(frames[1].message.0, "user is disconnected: 2");
    let (frames, _) = lobby.handle_client_message_at(text_event(1, "alice", 42, "still here"), 9);
    assert_eq!(sinks(&frames), vec![101, 103]);
}

#[test]
fn reconnect_evicts_previous_sink() {
    let mut lobby = Lobby::new();
    lobby.handle_connect(connect(1, 42, 101), &Vec::new());
    let frames = lobby.handle_connect(connect(1, 42, 201), &Vec::new());
    assert_eq!(sinks(&frames), vec![201]);
    let (frames, _) = lobby.handle_client_message_at(text_event(1, "alice", 42, "again"), 3);
    assert_eq!(sinks(&frames), vec![201]);
    assert!(frames.iter().all(|f| f.sink != 101));
}

#[test]
fn last_disconnect_drops_room_and_reconnect_starts_empty() {
    let mut lobby = Lobby::new();
    lobby.handle_connect(connect(7, 9, 700), &Vec::new());
    let frames = lobby.handle_disconnect(Disconnect { room_id: 9, user_id: 7 });
    assert!(frames.is_empty());
    let history = vec![StoredMessage {
        msg: "kept".to_string(),
        sender_name: "old".to_string(),
        sender_id: 7,
        created_at_millis: 0,
    }];
    let frames = lobby.handle_connect(connect(8, 9, 800), &history);
    // No stale members are notified, and the persisted history is intact.
    assert_eq!(sinks(&frames), vec![800]);
    assert!(frames[0].message.0.contains("kept"));
}

#[test]
fn membership_follows_connect_disconnect_replay() {
    let mut lobby = Lobby::new();
    lobby.handle_connect(connect(1, 5, 11), &Vec::new());
    lobby.handle_connect(connect(2, 5, 22), &Vec::new());
    lobby.handle_disconnect(Disconnect { room_id: 5, user_id: 1 });
    lobby.handle_connect(connect(1, 5, 33), &Vec::new());
    let (frames, _) = lobby.handle_client_message_at(text_event(2, "bob", 5, "who is here"), 1);
    // User 1 left and came back with a new sink; member order is 2 then 1.
    assert_eq!(sinks(&frames), vec![22, 33]);
}

#[test]
fn three_records_history_is_exact_and_ordered() {
    let mut lobby = Lobby::new();
    let history = vec![
        StoredMessage {
            msg: "a\nb".to_string(),
            sender_name: "bob".to_string(),
            sender_id: 2,
            created_at_millis: 0,
        },
        StoredMessage {
            msg: "second".to_string(),
            sender_name: "alice".to_string(),
            sender_id: 1,
            created_at_millis: 1234,
        },
        StoredMessage {
            msg: "third".to_string(),
            sender_name: "carol \"c\"".to_string(),
            sender_id: -3,
            created_at_millis: 1_700_000_000_000,
        },
    ];
    let frames = lobby.handle_connect(connect(1, 42, 101), &history);
    assert_eq!(frames.len(), 1);
    let expected = "{\"messages\":[\
        {\"message\":\"a\\nb\",\"senderName\":\"bob\",\"senderId\":2,\
        \"createdAt\":\"1970-01-01 00:00:00\"},\
        {\"message\":\"second\",\"senderName\":\"alice\",\"senderId\":1,\
        \"createdAt\":\"1970-01-01 00:00:01.234\"},\
        {\"message\":\"third\",\"senderName\":\"carol \\\"c\\\"\",\"senderId\":-3,\
        \"createdAt\":\"2023-11-14 22:13:20\"}\
        ]}";
    assert_eq!(frames[0].message.0, expected);
}

#[test]
fn closed_event_updates_last_joined_and_stays_silent() {
    let mut lobby = Lobby::new();
    lobby.handle_connect(connect(1, 42, 101), &Vec::new());
    let ev = ClientActorMessage {
        user_id: 1,
        user_name: "alice".to_string(),
        msg: ClientWsMessage {
            message_type: ClientWsMessageType::Closed,
            message: String::new(),
        },
        room_id: 42,
    };
    let (frames, cmd) = lobby.handle_client_message_at(ev, 77);
    assert!(frames.is_empty());
    assert_eq!(cmd, Some(StoreCommand::SetLastJoinedAt { room_id: 42, user_id: 1 }));
}

#[test]
fn editing_and_delete_events_are_accepted_without_effect() {
    let mut lobby = Lobby::new();
    lobby.handle_connect(connect(1, 42, 101), &Vec::new());
    for ty in [ClientWsMessageType::Editing, ClientWsMessageType::MessageDelete] {
        let ev = ClientActorMessage {
            user_id: 1,
            user_name: "alice".to_string(),
            msg: ClientWsMessage { message_type: ty, message: "x".to_string() },
            room_id: 42,
        };
        let (frames, cmd) = lobby.handle_client_message_at(ev, 1);
        assert!(frames.is_empty());
        assert_eq!(cmd, None);
    }
}

#[test]
fn clocked_text_message_carries_a_real_timestamp() {
    let mut lobby = Lobby::new();
    lobby.handle_connect(connect(1, 42, 101), &Vec::new());
    let (frames, cmd) = lobby.handle_client_message(text_event(1, "alice", 42, "now"));
    assert_eq!(frames.len(), 1);
    match cmd {
        Some(StoreCommand::InsertMessage { room_id, sender_id, created_at_millis, .. }) => {
            assert_eq!(room_id, 42);
            assert_eq!(sender_id, 1);
            // The broadcast envelope renders the very timestamp that is persisted.
            assert!(created_at_millis > 1_600_000_000_000);
        }
        other => panic!("unexpected command: {:?}", other),
    }
}

//! The room registry: the single owner of "who is listening to which room
//! right now". It is written as a state machine: each handler takes one
//! event, mutates the two in-memory maps, and returns the frames to deliver
//! and the persistence calls to make, so that the surrounding runtime only
//! performs I/O the registry has already decided on.

use vstd::prelude::*;
use std::collections::HashMap;

use crate::helpers::datetime_text_of;
use crate::helpers::format_timestamp_millis;
use crate::helpers::now_timestamp_millis;
use crate::json::encode_server_messages;
use crate::json::server_messages_json;
use crate::messages::ClientActorMessage;
use crate::messages::ClientWsMessageType;
use crate::messages::Connect;
use crate::messages::Disconnect;
use crate::messages::ServerActorMessage;
use crate::messages::ServerActorMessages;
use crate::messages::ServerMsgModel;
use crate::messages::SinkId;
use crate::messages::WsMessage;
use crate::messages::server_msg_models;
use crate::text::dec_int;
use vstd::seq_lib::lemma_seq_contains_after_push;
use vstd::string::StringExecFns;

verus! {

broadcast use vstd::std_specs::hash::group_hash_axioms;

/// A chat message as the message store hands it back: the text, the
/// sender's identity and name snapshot, and the creation time in
/// milliseconds since the epoch.
#[derive(Debug, Clone)]
pub struct StoredMessage {
    pub msg: String,
    pub sender_name: String,
    pub sender_id: i64,
    pub created_at_millis: i64,
}

/// The model of a stored message as it appears in the history envelope.
pub open spec fn stored_model(m: StoredMessage) -> ServerMsgModel {
    ServerMsgModel {
        message: m.msg@,
        sender_name: m.sender_name@,
        sender_id: m.sender_id as int,
        created_at: datetime_text_of(m.created_at_millis as int),
    }
}

/// The models of a stored history, in order.
pub open spec fn stored_models(s: Seq<StoredMessage>) -> Seq<ServerMsgModel> {
    s.map_values(|m: StoredMessage| stored_model(m))
}

/// One already-serialized frame, addressed to one sink.
#[derive(Debug, Clone, PartialEq)]
pub struct OutboundFrame {
    pub sink: SinkId,
    pub message: WsMessage,
}

impl View for OutboundFrame {
    type V = (SinkId, Seq<char>);

    open spec fn view(&self) -> (SinkId, Seq<char>) {
        (self.sink, self.message.0@)
    }
}

/// The models of a frame list: sink and text of each, in order.
pub open spec fn frames_view(v: Seq<OutboundFrame>) -> Seq<(SinkId, Seq<char>)> {
    v.map_values(|f: OutboundFrame| f@)
}

/// A persistence call the registry asks the surrounding runtime to make.
/// Failures of these calls are logged by the runtime and never fed back.
#[derive(Debug, Clone, PartialEq)]
pub enum StoreCommand {
    InsertMessage {
        room_id: i64,
        sender_id: i64,
        sender_name: String,
        body: String,
        created_at_millis: i64,
    },
    SetLastJoinedAt { room_id: i64, user_id: i64 },
}

/// The plain-text notification broadcast when a user joins a room.
pub open spec fn connect_note_text(u: i64) -> Seq<char> {
    "new user is connected: "@ + dec_int(u as int)
}

/// The plain-text notification broadcast when a user leaves a room.
pub open spec fn disconnect_note_text(u: i64) -> Seq<char> {
    "user is disconnected: "@ + dec_int(u as int)
}

/// Whether a sequence holds no element twice.
pub open spec fn unique_seq(s: Seq<i64>) -> bool {
    forall|i: int, j: int| 0 <= i < j < s.len() ==> s[i] != s[j]
}

/// One frame carrying `text` to the sink of each listed member that has
/// one, in member order, skipping `skip`.
pub open spec fn spec_fanout(
    members: Seq<i64>,
    sessions: Map<i64, SinkId>,
    skip: Option<i64>,
    text: Seq<char>,
) -> Seq<(SinkId, Seq<char>)>
    decreases members.len(),
{
    if members.len() == 0 {
        Seq::empty()
    } else {
        let rest = spec_fanout(members.drop_last(), sessions, skip, text);
        let m = members.last();
        if skip != Some(m) && sessions.contains_key(m) {
            rest.push((sessions[m], text))
        } else {
            rest
        }
    }
}

/// The room registry's in-memory state: a sink for each connected user,
/// and the set of connected users of each room, kept as a duplicate-free
/// list in connection order. Rooms with no members are not kept.
pub struct Lobby {
    sessions: HashMap<i64, SinkId>,
    rooms: HashMap<i64, Vec<i64>>,
}

impl Lobby {
    /// The session map: each connected user's sink.
    pub closed spec fn sessions_map(&self) -> Map<i64, SinkId> {
        self.sessions@
    }

    /// Whether the registry currently keeps an entry for `room`.
    pub closed spec fn has_room(&self, room: i64) -> bool {
        self.rooms@.contains_key(room)
    }

    /// The members of `room` in connection order; empty when the room is
    /// not kept.
    pub closed spec fn members_of(&self, room: i64) -> Seq<i64> {
        if self.has_room(room) {
            self.rooms@[room]@
        } else {
            Seq::empty()
        }
    }

    /// The member set of `room`.
    pub open spec fn member_set(&self, room: i64) -> Set<i64> {
        self.members_of(room).to_set()
    }

    /// Every kept room has a duplicate-free, non-empty member list.
    pub closed spec fn wf(&self) -> bool {
        forall|r: i64| #[trigger]
            self.rooms@.contains_key(r) ==> unique_seq(self.rooms@[r]@) && self.rooms@[r]@.len()
                > 0
    }

    /// A fresh registry: no sessions, no rooms, every member list empty.
    pub fn new() -> (r: Lobby)
        ensures
            r.wf(),
            r.sessions_map() == Map::<i64, SinkId>::empty(),
            forall|room: i64| !r.has_room(room),
            forall|room: i64| r.members_of(room) == Seq::<i64>::empty(),
    {
        let r = Lobby { sessions: HashMap::new(), rooms: HashMap::new() };
        proof {
            assert(r.sessions@ =~= Map::<i64, SinkId>::empty());
            assert forall|room: i64| r.members_of(room) == Seq::<i64>::empty() by {
                assert(!r.rooms@.contains_key(room));
            }
        }
        r
    }
}

/// Whether `v` holds `x`.
fn vec_contains_i64(v: &Vec<i64>, x: i64) -> (r: bool)
    ensures
        r == v@.contains(x),
{
    let n = v.len();
    let mut i: usize = 0;
    while i < n
        invariant
            n == v@.len(),
            i <= n,
            forall|j: int| 0 <= j < i ==> v@[j] != x,
        decreases n - i,
    {
        if v[i] == x {
            return true;
        }
        i = i + 1;
    }
    false
}

/// The first index of `x` in `v`, if any.
fn vec_index_of_i64(v: &Vec<i64>, x: i64) -> (r: Option<usize>)
    ensures
        match r {
            Some(i) => i < v@.len() && v@[i as int] == x && forall|j: int| 0 <= j < i ==> v@[j] != x,
            None => !v@.contains(x),
        },
{
    let n = v.len();
    let mut i: usize = 0;
    while i < n
        invariant
            n == v@.len(),
            i <= n,
            forall|j: int| 0 <= j < i ==> v@[j] != x,
        decreases n - i,
    {
        if v[i] == x {
            return Some(i);
        }
        i = i + 1;
    }
    None
}

impl Lobby {
    /// Builds the frames that carry `text` to every listed member with a
    /// sink, in member order, skipping `skip`.
    fn fanout(&self, members: &Vec<i64>, skip: Option<i64>, text: &String, out: &mut Vec<OutboundFrame>)
        ensures
            frames_view(final(out)@) == frames_view(old(out)@) + spec_fanout(
                members@,
                self.sessions@,
                skip,
                text@,
            ),
    {
        let n = members.len();
        let mut i: usize = 0;
        while i < n
            invariant
                n == members@.len(),
                i <= n,
                frames_view(out@) == frames_view(old(out)@) + spec_fanout(
                    members@.take(i as int),
                    self.sessions@,
                    skip,
                    text@,
                ),
            decreases n - i,
        {
            let m = members[i];
            let ghost fi = spec_fanout(members@.take(i as int), self.sessions@, skip, text@);
            let skipped: bool = match skip {
                Some(sid) => sid == m,
                None => false,
            };
            if !skipped {
                match self.sessions.get(&m) {
                    Some(sink) => {
                        let frame = OutboundFrame { sink: *sink, message: WsMessage(text.clone()) };
                        let ghost pre = out@;
                        proof {
                            assert(self.sessions@.contains_key(m) && self.sessions@[m]
                                == frame.sink);
                            assert(frame@ == (self.sessions@[m], text@));
                        }
                        out.push(frame);
                        proof {
                            assert(frames_view(out@) =~= frames_view(pre).push(frame@));
                            assert((frames_view(old(out)@) + fi).push(frame@) =~= frames_view(
                                old(out)@,
                            ) + fi.push(frame@));
                        }
                    },
                    None => {
                        proof {
                            assert(!self.sessions@.contains_key(m));
                        }
                    },
                }
            }
            proof {
                assert(members@.take(i + 1).drop_last() =~= members@.take(i as int));
                assert(members@.take(i + 1).last() == members@[i as int]);
                assert(frames_view(out@) == frames_view(old(out)@) + spec_fanout(
                    members@.take(i + 1),
                    self.sessions@,
                    skip,
                    text@,
                ));
            }
            i = i + 1;
        }
        assert(members@.take(n as int) =~= members@);
    }
}

/// The member list of a room after a user connects: unchanged when the
/// user is already listed, extended at the end otherwise, and a fresh
/// one-member list when the room was not kept.
pub open spec fn spec_members_after_connect(l: Lobby, room: i64, u: i64) -> Seq<i64> {
    if l.has_room(room) {
        if l.members_of(room).contains(u) {
            l.members_of(room)
        } else {
            l.members_of(room).push(u)
        }
    } else {
        seq![u]
    }
}

/// Everything a connect delivers, in order: the join notification to every
/// other member that had a sink, then the history envelope to the new sink.
pub open spec fn spec_connect_frames(l: Lobby, msg: Connect, history: Seq<StoredMessage>) -> Seq<
    (SinkId, Seq<char>),
> {
    spec_fanout(
        spec_members_after_connect(l, msg.lobby_id, msg.user_id),
        l.sessions_map(),
        Some(msg.user_id),
        connect_note_text(msg.user_id),
    ).push((msg.addr, server_messages_json(stored_models(history))))
}

impl Lobby {
    /// Adds `msg.user_id` to the member list of `msg.lobby_id` (creating
    /// it if absent), notifies the other members, registers the sink
    /// (evicting any prior sink of the same user), and hands the given
    /// persisted history to the new sink as one batched envelope. The
    /// caller fetches `history` from the message store; a failed fetch is
    /// passed as an empty history.
    pub fn handle_connect(&mut self, msg: Connect, history: &Vec<StoredMessage>) -> (frames: Vec<
        OutboundFrame,
    >)
        requires
            old(self).wf(),
        ensures
            final(self).wf(),
            final(self).members_of(msg.lobby_id) == spec_members_after_connect(
                *old(self),
                msg.lobby_id,
                msg.user_id,
            ),
            final(self).has_room(msg.lobby_id),
            forall|r: i64|
                r != msg.lobby_id ==> final(self).members_of(r) == old(self).members_of(r) && (
                final(self).has_room(r) <==> old(self).has_room(r)),
            final(self).sessions_map() == old(self).sessions_map().insert(msg.user_id, msg.addr),
            frames_view(frames@) == spec_connect_frames(*old(self), msg, history@),
            final(self).member_set(msg.lobby_id) =~= old(self).member_set(msg.lobby_id).insert(
                msg.user_id,
            ),
    {
        let room = msg.lobby_id;
        let user = msg.user_id;
        let ghost members_after = spec_members_after_connect(*old(self), room, user);

        // Create the room entry if necessary, then list the user in it.
        let taken = self.rooms.remove(&room);
        let new_members: Vec<i64> = match taken {
            Some(ms) => {
                let mut ms = ms;
                if !vec_contains_i64(&ms, user) {
                    ms.push(user);
                }
                ms
            },
            None => {
                let mut ms: Vec<i64> = Vec::new();
                ms.push(user);
                proof {
                    assert(ms@ =~= seq![user]);
                }
                ms
            },
        };
        assert(new_members@ == members_after);

        // Tell everyone else in the room that the user joined; the new
        // sink is not registered yet, so the sender can hold no sink here
        // beyond one left from an earlier connection, and is skipped.
        let note = {
            let mut t = String::from_str("new user is connected: ");
            crate::text::push_dec_i64(&mut t, user);
            t
        };
        let mut frames: Vec<OutboundFrame> = Vec::new();
        self.fanout(&new_members, Some(user), &note, &mut frames);

        // Store the sink under the user, last writer wins.
        self.sessions.insert(user, msg.addr);

        // Keep the updated member list.
        self.rooms.insert(room, new_members);

        // Hand the persisted backlog to the new sink as one envelope.
        let mut resp: Vec<ServerActorMessage> = Vec::new();
        let hn = history.len();
        let mut i: usize = 0;
        while i < hn
            invariant
                hn == history@.len(),
                i <= hn,
                server_msg_models(resp@) == stored_models(history@.take(i as int)),
            decreases hn - i,
        {
            let m = &history[i];
            let ghost pre = resp@;
            resp.push(
                ServerActorMessage {
                    message: m.msg.clone(),
                    sender_name: m.sender_name.clone(),
                    sender_id: m.sender_id,
                    created_at: format_timestamp_millis(m.created_at_millis),
                },
            );
            proof {
                assert(pre.len() == i) by {
                    assert(server_msg_models(pre).len() == pre.len());
                    assert(stored_models(history@.take(i as int)).len() == i);
                }
                assert(resp@[pre.len() as int]@ =~~= stored_model(history@[i as int]));
                assert forall|k: int| 0 <= k < resp@.len() implies server_msg_models(resp@)[k]
                    == stored_models(history@.take(i + 1))[k] by {
                    if k < pre.len() {
                        assert(server_msg_models(pre)[k] == stored_models(history@.take(i as int))[k]);
                        assert(resp@[k] == pre[k]);
                        assert(history@.take(i + 1)[k] == history@.take(i as int)[k]);
                    }
                }
                assert(server_msg_models(resp@) =~~= stored_models(history@.take(i + 1)));
            }
            i = i + 1;
        }
        proof {
            assert(history@.take(hn as int) =~= history@);
        }
        let history_json = encode_server_messages(&ServerActorMessages { messages: resp });
        frames.push(OutboundFrame { sink: msg.addr, message: WsMessage(history_json) });

        proof {
            let ms_old = old(self).members_of(room);
            assert(frames_view(frames@) =~~= spec_connect_frames(*old(self), msg, history@));
            assert(final(self).members_of(room) == members_after);
            assert forall|x: i64| members_after.contains(x) <==> (ms_old.contains(x) || x
                == user) by {
                if old(self).has_room(room) {
                    if ms_old.contains(user) {
                    } else {
                        lemma_seq_contains_after_push(ms_old, user, x);
                    }
                } else {
                    if x == user {
                        assert(members_after[0] == x);
                    }
                    if members_after.contains(x) {
                        let k = choose|k: int|
                            0 <= k < members_after.len() && #[trigger] members_after[k] == x;
                        assert(x == user);
                    }
                }
            }
            assert(unique_seq(members_after)) by {
                if old(self).has_room(room) && !ms_old.contains(user) {
                    assert forall|i: int, j: int|
                        0 <= i < j < members_after.len() implies members_after[i]
                        != members_after[j] by {
                        if j == ms_old.len() {
                            assert(members_after[j] == user);
                            if members_after[i] == user {
                                assert(ms_old[i] == user);
                                assert(ms_old.contains(user));
                            }
                        } else {
                            assert(members_after[i] == ms_old[i]);
                            assert(members_after[j] == ms_old[j]);
                        }
                    }
                }
            }
            assert(final(self).wf()) by {
                assert forall|r: i64| #[trigger] final(self).rooms@.contains_key(r) implies
                    unique_seq(final(self).rooms@[r]@) && final(self).rooms@[r]@.len() > 0 by {
                    if r != room {
                        assert(old(self).rooms@.contains_key(r));
                    }
                }
            }
            assert(final(self).member_set(room) =~= old(self).member_set(room).insert(user));
        }
        frames
    }
}

/// Everything a disconnect delivers: the leave notification to every
/// remaining member of the room that has a sink, in member order.
pub open spec fn spec_disconnect_frames(l: Lobby, msg: Disconnect) -> Seq<(SinkId, Seq<char>)> {
    spec_fanout(
        l.members_of(msg.room_id).remove_value(msg.user_id),
        l.sessions_map().remove(msg.user_id),
        None,
        disconnect_note_text(msg.user_id),
    )
}

impl Lobby {
    /// Drops `msg.user_id`'s sink, notifies the remaining members of
    /// `msg.room_id`, and removes the user from the room's member list;
    /// a room whose member list becomes empty is dropped from the
    /// registry (memory only — persisted history is untouched).
    pub fn handle_disconnect(&mut self, msg: Disconnect) -> (frames: Vec<OutboundFrame>)
        requires
            old(self).wf(),
        ensures
            final(self).wf(),
            final(self).sessions_map() == old(self).sessions_map().remove(msg.user_id),
            final(self).members_of(msg.room_id) == old(self).members_of(
                msg.room_id,
            ).remove_value(msg.user_id),
            final(self).has_room(msg.room_id) <==> old(self).members_of(msg.room_id).remove_value(
                msg.user_id,
            ).len() > 0,
            forall|r: i64|
                r != msg.room_id ==> final(self).members_of(r) == old(self).members_of(r) && (
                final(self).has_room(r) <==> old(self).has_room(r)),
            frames_view(frames@) == spec_disconnect_frames(*old(self), msg),
            final(self).member_set(msg.room_id) =~= old(self).member_set(msg.room_id).remove(
                msg.user_id,
            ),
            old(self).members_of(msg.room_id) =~= seq![msg.user_id] ==> !final(self).has_room(
                msg.room_id,
            ),
    {
        let room = msg.room_id;
        let user = msg.user_id;
        let ghost old_members = old(self).members_of(room);
        let ghost after = old_members.remove_value(user);

        self.sessions.remove(&user);

        let taken = self.rooms.remove(&room);
        let mut frames: Vec<OutboundFrame> = Vec::new();
        match taken {
            Some(ms) => {
                let mut ms = ms;
                proof {
                    assert(ms@ == old_members);
                    old_members.index_of_first_ensures(user);
                }
                match vec_index_of_i64(&ms, user) {
                    Some(idx) => {
                        ms.remove(idx);
                        proof {
                            assert(old_members.contains(user)) by {
                                assert(old_members[idx as int] == user);
                            }
                            let widx = old_members.index_of_first(user)->0;
                            assert(old_members[widx] == user);
                            assert(widx == idx as int) by {
                                if widx < idx as int {
                                    assert(old_members[widx] != user);
                                }
                            }
                            assert(ms@ == after);
                        }
                    },
                    None => {
                        proof {
                            assert(ms@ == after);
                        }
                    },
                }
                let note = {
                    let mut t = String::from_str("user is disconnected: ");
                    crate::text::push_dec_i64(&mut t, user);
                    t
                };
                self.fanout(&ms, None, &note, &mut frames);
                if ms.len() > 0 {
                    self.rooms.insert(room, ms);
                }
            },
            None => {
                proof {
                    old_members.index_of_first_ensures(user);
                    assert(old_members =~= Seq::<i64>::empty());
                    assert(after =~= Seq::<i64>::empty());
                    assert(frames_view(frames@) =~~= spec_disconnect_frames(*old(self), msg));
                }
            },
        }

        proof {
            old_members.index_of_first_ensures(user);
            let ghost fidx: int = match old_members.index_of_first(user) {
                Some(k) => k,
                None => -1,
            };
            assert(final(self).members_of(room) == after);
            assert forall|x: i64| after.contains(x) <==> (old_members.contains(x) && x != user) by {
                if old_members.contains(user) {
                    assert(after == old_members.remove(fidx));
                    if after.contains(x) {
                        let k = choose|k: int| 0 <= k < after.len() && #[trigger] after[k] == x;
                        if k < fidx {
                            assert(old_members[k] == x);
                        } else {
                            assert(old_members[k + 1] == x);
                        }
                        assert(x != user) by {
                            if k < fidx {
                                assert(old_members[k] != user);
                            } else {
                                assert(old(self).has_room(room));
                                assert(unique_seq(old_members));
                                assert(old_members[fidx] == old_members[fidx]);
                                if old_members[k + 1] == user {
                                    assert(old_members[fidx] == user);
                                    assert(fidx < k + 1);
                                }
                            }
                        }
                    }
                    if old_members.contains(x) && x != user {
                        let k = choose|k: int|
                            0 <= k < old_members.len() && #[trigger] old_members[k] == x;
                        if k < fidx {
                            assert(after[k] == x);
                        } else {
                            assert(k != fidx);
                            assert(after[k - 1] == x);
                        }
                    }
                }
            }
            assert(unique_seq(after)) by {
                if old_members.contains(user) {
                    assert(old(self).has_room(room));
                    assert(unique_seq(old_members));
                    assert(after == old_members.remove(fidx));
                    assert forall|i: int, j: int| 0 <= i < j < after.len() implies after[i]
                        != after[j] by {
                        let oi: int = if i < fidx {
                            i
                        } else {
                            i + 1
                        };
                        let oj: int = if j < fidx {
                            j
                        } else {
                            j + 1
                        };
                        assert(after[i] == old_members[oi]);
                        assert(after[j] == old_members[oj]);
                    }
                }
            }
            assert(final(self).wf()) by {
                assert forall|r: i64| #[trigger] final(self).rooms@.contains_key(r) implies
                    unique_seq(final(self).rooms@[r]@) && final(self).rooms@[r]@.len() > 0 by {
                    if r != room {
                        assert(old(self).rooms@.contains_key(r));
                    }
                }
            }
            assert(final(self).member_set(room) =~= old(self).member_set(room).remove(user));
            if old_members =~= seq![user] {
                assert(old_members.contains(user)) by {
                    assert(old_members[0] == user);
                }
                assert(after.len() == 0);
            }
        }
        frames
    }
}

/// The model of a live chat message as it is broadcast: the body, the
/// sender's name and id, and the capture-time rendering.
pub open spec fn live_msg_model(msg: ClientActorMessage, now_millis: i64) -> ServerMsgModel {
    ServerMsgModel {
        message: msg.msg.message@,
        sender_name: msg.user_name@,
        sender_id: msg.user_id as int,
        created_at: datetime_text_of(now_millis as int),
    }
}

/// What one client event produces, given the timestamp captured for it:
/// a `Message` is wrapped in a one-element envelope, broadcast to every
/// member of the room with a sink (the sender included), and persisted
/// with the same timestamp; `Closed` only updates the member's
/// last-joined time; the remaining tags are accepted and do nothing.
pub open spec fn client_message_outcome(
    l: Lobby,
    msg: ClientActorMessage,
    now_millis: i64,
    frames: Seq<(SinkId, Seq<char>)>,
    cmd: Option<StoreCommand>,
) -> bool {
    match msg.msg.message_type {
        ClientWsMessageType::Closed => {
            &&& frames.len() == 0
            &&& cmd matches Some(c) && c matches StoreCommand::SetLastJoinedAt {
                room_id,
                user_id,
            } && room_id == msg.room_id && user_id == msg.user_id
        },
        ClientWsMessageType::Message => {
            &&& frames == spec_fanout(
                l.members_of(msg.room_id),
                l.sessions_map(),
                None,
                server_messages_json(seq![live_msg_model(msg, now_millis)]),
            )
            &&& cmd matches Some(c) && c matches StoreCommand::InsertMessage {
                room_id,
                sender_id,
                sender_name,
                body,
                created_at_millis,
            } && room_id == msg.room_id && sender_id == msg.user_id && sender_name@
                == msg.user_name@ && body@ == msg.msg.message@ && created_at_millis == now_millis
        },
        _ => {
            &&& frames.len() == 0
            &&& cmd is None
        },
    }
}

impl Lobby {
    /// Handles one client event with an explicitly captured timestamp.
    /// The registry state is left untouched: client events change no
    /// membership.
    pub fn handle_client_message_at(&mut self, msg: ClientActorMessage, now_millis: i64) -> (r: (
        Vec<OutboundFrame>,
        Option<StoreCommand>,
    ))
        requires
            old(self).wf(),
        ensures
            final(self).wf(),
            *final(self) == *old(self),
            client_message_outcome(*old(self), msg, now_millis, frames_view(r.0@), r.1),
    {
        match msg.msg.message_type {
            ClientWsMessageType::Closed => {
                (
                    Vec::new(),
                    Some(
                        StoreCommand::SetLastJoinedAt { room_id: msg.room_id, user_id: msg.user_id },
                    ),
                )
            },
            ClientWsMessageType::Message => {
                let created_at = format_timestamp_millis(now_millis);
                let one = ServerActorMessage {
                    message: msg.msg.message.clone(),
                    sender_name: msg.user_name.clone(),
                    sender_id: msg.user_id,
                    created_at,
                };
                let mut list: Vec<ServerActorMessage> = Vec::new();
                list.push(one);
                let env = ServerActorMessages { messages: list };
                let text = encode_server_messages(&env);
                proof {
                    assert(server_msg_models(env.messages@) =~~= seq![
                        live_msg_model(msg, now_millis),
                    ]);
                }
                let mut frames: Vec<OutboundFrame> = Vec::new();
                match self.rooms.get(&msg.room_id) {
                    Some(ms) => {
                        self.fanout(ms, None, &text, &mut frames);
                    },
                    None => {
                        proof {
                            assert(frames_view(frames@) =~~= spec_fanout(
                                self.members_of(msg.room_id),
                                self.sessions_map(),
                                None,
                                text@,
                            ));
                        }
                    },
                }
                let cmd = StoreCommand::InsertMessage {
                    room_id: msg.room_id,
                    sender_id: msg.user_id,
                    sender_name: msg.user_name,
                    body: msg.msg.message,
                    created_at_millis: now_millis,
                };
                (frames, Some(cmd))
            },
            ClientWsMessageType::Editing => (Vec::new(), None),
            ClientWsMessageType::MessageDelete => (Vec::new(), None),
        }
    }

    /// Handles one client event, capturing the timestamp from the clock.
    /// The same captured value feeds both the broadcast envelope and the
    /// persistence command.
    pub fn handle_client_message(&mut self, msg: ClientActorMessage) -> (r: (
        Vec<OutboundFrame>,
        Option<StoreCommand>,
    ))
        requires
            old(self).wf(),
        ensures
            final(self).wf(),
            *final(self) == *old(self),
            exists|now_millis: i64|
                client_message_outcome(*old(self), msg, now_millis, frames_view(r.0@), r.1),
    {
        let now = now_timestamp_millis();
        let ghost m = msg;
        let r = self.handle_client_message_at(msg, now);
        proof {
            assert(client_message_outcome(*old(self), m, now, frames_view(r.0@), r.1));
        }
        r
    }
}

/// One membership event on a single room, as the registry sees it.
#[derive(Clone, Copy, Debug, PartialEq, Eq, Structural)]
pub enum MembershipEvent {
    Connect { user_id: i64 },
    Disconnect { user_id: i64 },
}

/// What one membership event does to a room's member set: exactly what
/// `handle_connect` and `handle_disconnect` ensure of `member_set`.
pub open spec fn apply_membership_event(s: Set<i64>, ev: MembershipEvent) -> Set<i64> {
    match ev {
        MembershipEvent::Connect { user_id } => s.insert(user_id),
        MembershipEvent::Disconnect { user_id } => s.remove(user_id),
    }
}

/// The member set after replaying a sequence of events against an empty
/// registry.
pub open spec fn replay_membership(evs: Seq<MembershipEvent>) -> Set<i64>
    decreases evs.len(),
{
    if evs.len() == 0 {
        Set::empty()
    } else {
        apply_membership_event(replay_membership(evs.drop_last()), evs.last())
    }
}

/// Whether `u` has a connect event with no later disconnect event.
pub open spec fn connected_at_end(evs: Seq<MembershipEvent>, u: i64) -> bool {
    exists|i: int|
        0 <= i < evs.len() && #[trigger] evs[i] == (MembershipEvent::Connect { user_id: u })
            && (forall|j: int|
            i < j < evs.len() ==> #[trigger] evs[j] != (MembershipEvent::Disconnect {
                user_id: u,
            }))
}

/// For every sequence of connect and disconnect events on one room, the
/// member set after replay holds exactly the users whose latest connect
/// stands strictly after their latest disconnect (or who never
/// disconnected). The per-event transitions are the very ones
/// `handle_connect` and `handle_disconnect` ensure of `member_set`.
pub proof fn lemma_replay_membership(evs: Seq<MembershipEvent>, u: i64)
    ensures
        replay_membership(evs).contains(u) <==> connected_at_end(evs, u),
    decreases evs.len(),
{
    if evs.len() == 0 {
    } else {
        let init = evs.drop_last();
        let last = evs.last();
        let n = evs.len() as int;
        lemma_replay_membership(init, u);
        if last == (MembershipEvent::Connect { user_id: u }) {
            assert(replay_membership(evs).contains(u));
            assert(evs[n - 1] == (MembershipEvent::Connect { user_id: u }));
            assert(connected_at_end(evs, u));
        } else if last == (MembershipEvent::Disconnect { user_id: u }) {
            assert(!replay_membership(evs).contains(u));
            assert(!connected_at_end(evs, u)) by {
                if connected_at_end(evs, u) {
                    let i = choose|i: int|
                        0 <= i < evs.len() && #[trigger] evs[i] == (MembershipEvent::Connect {
                            user_id: u,
                        }) && (forall|j: int|
                            i < j < evs.len() ==> #[trigger] evs[j]
                                != (MembershipEvent::Disconnect { user_id: u }));
                    assert(i < n - 1);
                    assert(evs[n - 1] != (MembershipEvent::Disconnect { user_id: u }));
                }
            }
        } else {
            assert(replay_membership(evs).contains(u) <==> replay_membership(init).contains(u));
            assert(connected_at_end(evs, u) <==> connected_at_end(init, u)) by {
                if connected_at_end(init, u) {
                    let i = choose|i: int|
                        0 <= i < init.len() && #[trigger] init[i] == (MembershipEvent::Connect {
                            user_id: u,
                        }) && (forall|j: int|
                            i < j < init.len() ==> #[trigger] init[j]
                                != (MembershipEvent::Disconnect { user_id: u }));
                    assert(evs[i] == init[i]);
                    assert forall|j: int| i < j < evs.len() implies #[trigger] evs[j]
                        != (MembershipEvent::Disconnect { user_id: u }) by {
                        if j < n - 1 {
                            assert(evs[j] == init[j]);
                        }
                    }
                    assert(connected_at_end(evs, u));
                }
                if connected_at_end(evs, u) {
                    let i = choose|i: int|
                        0 <= i < evs.len() && #[trigger] evs[i] == (MembershipEvent::Connect {
                            user_id: u,
                        }) && (forall|j: int|
                            i < j < evs.len() ==> #[trigger] evs[j]
                                != (MembershipEvent::Disconnect { user_id: u }));
                    assert(i < n - 1);
                    assert(init[i] == evs[i]);
                    assert forall|j: int| i < j < init.len() implies #[trigger] init[j]
                        != (MembershipEvent::Disconnect { user_id: u }) by {
                        assert(init[j] == evs[j]);
                    }
                    assert(connected_at_end(init, u));
                }
            }
        }
    }
}

/// Every member of the fan-out list that has a sink and is not skipped
/// receives the text.
pub proof fn lemma_fanout_delivers(
    members: Seq<i64>,
    sessions: Map<i64, SinkId>,
    skip: Option<i64>,
    text: Seq<char>,
    m: i64,
)
    requires
        members.contains(m),
        skip != Some(m),
        sessions.contains_key(m),
    ensures
        spec_fanout(members, sessions, skip, text).contains((sessions[m], text)),
    decreases members.len(),
{
    let f = (sessions[m], text);
    let rest = spec_fanout(members.drop_last(), sessions, skip, text);
    if members.last() == m {
        assert(spec_fanout(members, sessions, skip, text) == rest.push(f));
        assert(rest.push(f)[rest.len() as int] == f);
    } else {
        let k = choose|k: int| 0 <= k < members.len() && #[trigger] members[k] == m;
        assert(members.drop_last()[k] == m);
        lemma_fanout_delivers(members.drop_last(), sessions, skip, text, m);
        let j = choose|j: int| 0 <= j < rest.len() && #[trigger] rest[j] == f;
        if skip != Some(members.last()) && sessions.contains_key(members.last()) {
            assert(spec_fanout(members, sessions, skip, text)[j] == f);
        } else {
            assert(spec_fanout(members, sessions, skip, text)[j] == f);
        }
    }
}

/// Every frame of the fan-out carries the text, and goes to the sink of
/// some listed member that was not skipped.
pub proof fn lemma_fanout_targets(
    members: Seq<i64>,
    sessions: Map<i64, SinkId>,
    skip: Option<i64>,
    text: Seq<char>,
)
    ensures
        forall|idx: int|
            0 <= idx < spec_fanout(members, sessions, skip, text).len() ==> {
                let f = #[trigger] spec_fanout(members, sessions, skip, text)[idx];
                f.1 == text && exists|w: i64|
                    #[trigger] members.contains(w) && skip != Some(w) && sessions.contains_key(w)
                        && sessions[w] == f.0
            },
    decreases members.len(),
{
    if members.len() > 0 {
        let prefix = members.drop_last();
        let rest = spec_fanout(prefix, sessions, skip, text);
        lemma_fanout_targets(prefix, sessions, skip, text);
        assert forall|w: i64| #[trigger] prefix.contains(w) implies members.contains(w) by {
            let k = choose|k: int| 0 <= k < prefix.len() && #[trigger] prefix[k] == w;
            assert(members[k] == w);
        }
        let last = members.last();
        if skip != Some(last) && sessions.contains_key(last) {
            assert(members.contains(last)) by {
                assert(members[members.len() - 1] == last);
            }
            assert forall|idx: int|
                0 <= idx < spec_fanout(members, sessions, skip, text).len() implies {
                let f = #[trigger] spec_fanout(members, sessions, skip, text)[idx];
                f.1 == text && exists|w: i64|
                    #[trigger] members.contains(w) && skip != Some(w) && sessions.contains_key(w)
                        && sessions[w] == f.0
            } by {
                let f = spec_fanout(members, sessions, skip, text)[idx];
                if idx < rest.len() {
                    assert(rest[idx] == f);
                } else {
                    assert(f == (sessions[last], text));
                }
            }
        }
    }
}

/// A Text broadcast in a room is delivered to every currently-connected
/// member of that room that has a sink — the sender included — and every
/// delivered frame goes to the sink of a member of that room, so members
/// of other rooms (with sinks of their own) observe nothing.
pub proof fn lemma_text_broadcast(
    l: Lobby,
    msg: ClientActorMessage,
    now_millis: i64,
    frames: Seq<(SinkId, Seq<char>)>,
    cmd: Option<StoreCommand>,
    m: i64,
)
    requires
        msg.msg.message_type is Message,
        client_message_outcome(l, msg, now_millis, frames, cmd),
    ensures
        l.members_of(msg.room_id).contains(m) && l.sessions_map().contains_key(m)
            ==> frames.contains(
            (l.sessions_map()[m], server_messages_json(seq![live_msg_model(msg, now_millis)])),
        ),
        forall|idx: int|
            0 <= idx < frames.len() ==> exists|w: i64|
                l.members_of(msg.room_id).contains(w) && l.sessions_map().contains_key(w)
                    && l.sessions_map()[w] == (#[trigger] frames[idx]).0,
{
    let members = l.members_of(msg.room_id);
    let sessions = l.sessions_map();
    let env = server_messages_json(seq![live_msg_model(msg, now_millis)]);
    if members.contains(m) && sessions.contains_key(m) {
        lemma_fanout_delivers(members, sessions, None, env, m);
    }
    lemma_fanout_targets(members, sessions, None, env);
    assert forall|idx: int| 0 <= idx < frames.len() implies exists|w: i64|
        l.members_of(msg.room_id).contains(w) && l.sessions_map().contains_key(w)
            && l.sessions_map()[w] == (#[trigger] frames[idx]).0 by {
        let f = spec_fanout(members, sessions, None, env)[idx];
        assert(f == frames[idx]);
        let w = choose|w: i64|
            #[trigger] members.contains(w) && None::<i64> != Some(w) && sessions.contains_key(w)
                && sessions[w] == f.0;
        assert(members.contains(w) && sessions.contains_key(w) && sessions[w] == frames[idx].0);
    }
}

/// Reconnecting with the same user identifier evicts the previous sink:
/// after a user registers `first` and then `second`, the session map
/// holds `second`; a fan-out through the resulting map delivers to
/// `second` whenever the user is an unskipped member, and never to
/// `first`. The two preconditions name what the statement takes for
/// granted: the two connections carry distinct sinks, and no other user
/// registered the first one — both hold of a runtime that gives each
/// live connection a sink token of its own.
pub proof fn lemma_reconnect_evicts(
    sessions: Map<i64, SinkId>,
    u: i64,
    first: SinkId,
    second: SinkId,
    members: Seq<i64>,
    skip: Option<i64>,
    text: Seq<char>,
)
    requires
        first != second,
        forall|v: i64|
            v != u && #[trigger] sessions.contains_key(v) ==> sessions[v] != first,
    ensures
        sessions.insert(u, first).insert(u, second)[u] == second,
        members.contains(u) && skip != Some(u) ==> spec_fanout(
            members,
            sessions.insert(u, first).insert(u, second),
            skip,
            text,
        ).contains((second, text)),
        !spec_fanout(members, sessions.insert(u, first).insert(u, second), skip, text).contains(
            (first, text),
        ),
{
    let s2 = sessions.insert(u, first).insert(u, second);
    assert(s2[u] == second);
    if members.contains(u) && skip != Some(u) {
        lemma_fanout_delivers(members, s2, skip, text, u);
    }
    lemma_fanout_targets(members, s2, skip, text);
    if spec_fanout(members, s2, skip, text).contains((first, text)) {
        let idx = choose|idx: int|
            0 <= idx < spec_fanout(members, s2, skip, text).len() && #[trigger] spec_fanout(
                members,
                s2,
                skip,
                text,
            )[idx] == (first, text);
        let w = choose|w: i64|
            #[trigger] members.contains(w) && skip != Some(w) && s2.contains_key(w) && s2[w]
                == first;
        if w == u {
        } else {
            assert(sessions.contains_key(w) && sessions[w] == first);
        }
    }
}

} // verus!

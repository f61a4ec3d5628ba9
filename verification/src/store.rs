//! The durable snapshot codec: summaries and messages as plain database
//! rows, with a proved round trip. The shell around the library moves these
//! rows in and out of the SQL file; this module owns what the rows mean.

use vstd::prelude::*;

use crate::cache::{
    CacheSnapshot, CachedMessage, ChatPeerKind, ChatSummary, MessageModel, SummaryModel,
};
use crate::events::{ChatId, MessageId, UserId};
use crate::text::str_eq;

verus! {

/// One row of the `chats` table.
#[derive(Debug, PartialEq, Eq)]
pub struct ChatRow {
    pub chat_id: i64,
    pub title: String,
    pub peer_kind: String,
    pub last_message_id: Option<i64>,
    pub last_message_at: Option<i64>,
    pub unread_count: Option<i64>,
    pub updated_at: i64,
}

/// One row of the `messages` table.
#[derive(Debug, PartialEq, Eq)]
pub struct MessageRow {
    pub chat_id: i64,
    pub message_id: i64,
    pub author_id: i64,
    pub timestamp: i64,
    pub edit_timestamp: Option<i64>,
    pub text: String,
    pub outgoing: i64,
}

/// The ghost image of a chat row.
#[verifier::ext_equal]
pub struct ChatRowModel {
    pub chat_id: i64,
    pub title: Seq<char>,
    pub peer_kind: Seq<char>,
    pub last_message_id: Option<i64>,
    pub last_message_at: Option<i64>,
    pub unread_count: Option<i64>,
    pub updated_at: i64,
}

/// The ghost image of a message row.
#[verifier::ext_equal]
pub struct MessageRowModel {
    pub chat_id: i64,
    pub message_id: i64,
    pub author_id: i64,
    pub timestamp: i64,
    pub edit_timestamp: Option<i64>,
    pub text: Seq<char>,
    pub outgoing: i64,
}

impl ChatRow {
    pub open spec fn model(&self) -> ChatRowModel {
        ChatRowModel {
            chat_id: self.chat_id,
            title: self.title@,
            peer_kind: self.peer_kind@,
            last_message_id: self.last_message_id,
            last_message_at: self.last_message_at,
            unread_count: self.unread_count,
            updated_at: self.updated_at,
        }
    }
}

impl MessageRow {
    pub open spec fn model(&self) -> MessageRowModel {
        MessageRowModel {
            chat_id: self.chat_id,
            message_id: self.message_id,
            author_id: self.author_id,
            timestamp: self.timestamp,
            edit_timestamp: self.edit_timestamp,
            text: self.text@,
            outgoing: self.outgoing,
        }
    }
}

impl Clone for ChatRow {
    fn clone(&self) -> (res: Self)
        ensures
            res == *self,
    {
        ChatRow {
            chat_id: self.chat_id,
            title: self.title.clone(),
            peer_kind: self.peer_kind.clone(),
            last_message_id: self.last_message_id,
            last_message_at: self.last_message_at,
            unread_count: self.unread_count,
            updated_at: self.updated_at,
        }
    }
}

impl Clone for MessageRow {
    fn clone(&self) -> (res: Self)
        ensures
            res == *self,
    {
        MessageRow {
            chat_id: self.chat_id,
            message_id: self.message_id,
            author_id: self.author_id,
            timestamp: self.timestamp,
            edit_timestamp: self.edit_timestamp,
            text: self.text.clone(),
            outgoing: self.outgoing,
        }
    }
}

/// The serialized tag of a peer kind.
pub open spec fn spec_peer_kind_str(k: ChatPeerKind) -> Seq<char> {
    match k {
        ChatPeerKind::User => "user"@,
        ChatPeerKind::Group => "group"@,
        ChatPeerKind::Channel => "channel"@,
        ChatPeerKind::Unknown => "unknown"@,
    }
}

/// What a serialized tag loads as; unknown tags load as `Unknown`.
pub open spec fn spec_peer_kind_of(s: Seq<char>) -> ChatPeerKind {
    if s == "user"@ {
        ChatPeerKind::User
    } else if s == "group"@ {
        ChatPeerKind::Group
    } else if s == "channel"@ {
        ChatPeerKind::Channel
    } else {
        ChatPeerKind::Unknown
    }
}

impl ChatPeerKind {
    /// Serializes the peer kind.
    pub fn as_str(self) -> (r: &'static str)
        ensures
            r@ == spec_peer_kind_str(self),
    {
        match self {
            ChatPeerKind::User => "user",
            ChatPeerKind::Group => "group",
            ChatPeerKind::Channel => "channel",
            ChatPeerKind::Unknown => "unknown",
        }
    }

    /// Parses a serialized peer kind; unknown tags load as `Unknown`.
    pub fn from_str(raw: &str) -> (r: Self)
        ensures
            r == spec_peer_kind_of(raw@),
    {
        if str_eq(raw, "user") {
            ChatPeerKind::User
        } else if str_eq(raw, "group") {
            ChatPeerKind::Group
        } else if str_eq(raw, "channel") {
            ChatPeerKind::Channel
        } else {
            ChatPeerKind::Unknown
        }
    }
}

/// The tags of the four peer kinds are pairwise distinct, so serializing and
/// parsing gives the kind back.
pub proof fn lemma_peer_kind_round_trip(k: ChatPeerKind)
    ensures
        spec_peer_kind_of(spec_peer_kind_str(k)) == k,
{
    reveal_strlit("user");
    reveal_strlit("group");
    reveal_strlit("channel");
    reveal_strlit("unknown");
    match k {
        ChatPeerKind::User => {},
        ChatPeerKind::Group => {
            assert("group"@ != "user"@) by {
                assert("group"@.len() == 5);
                assert("user"@.len() == 4);
            }
        },
        ChatPeerKind::Channel => {
            assert("channel"@ != "user"@) by {
                assert("channel"@.len() == 7);
                assert("user"@.len() == 4);
            }
            assert("channel"@ != "group"@) by {
                assert("channel"@.len() == 7);
                assert("group"@.len() == 5);
            }
        },
        ChatPeerKind::Unknown => {
            assert("unknown"@ != "user"@) by {
                assert("unknown"@.len() == 7);
                assert("user"@.len() == 4);
            }
            assert("unknown"@ != "group"@) by {
                assert("unknown"@.len() == 7);
                assert("group"@.len() == 5);
            }
            assert("unknown"@ != "channel"@) by {
                assert("unknown"@[0] == 'u');
                assert("channel"@[0] == 'c');
            }
        },
    }
}

/// The row a summary is stored as; the row's `updated_at` falls back to the
/// last-message time, or 0.
pub open spec fn spec_encode_chat(c: SummaryModel) -> ChatRowModel {
    ChatRowModel {
        chat_id: c.chat_id.0,
        title: c.title,
        peer_kind: spec_peer_kind_str(c.peer_kind),
        last_message_id: match c.last_message_id {
            Some(id) => Some(id.0),
            None => None::<i64>,
        },
        last_message_at: c.last_message_at,
        unread_count: match c.unread_count {
            Some(u) => Some(u as i64),
            None => None::<i64>,
        },
        updated_at: match c.last_message_at {
            Some(t) => t,
            None => 0i64,
        },
    }
}

/// The summary a row loads as; an unread count is narrowed to 32 bits as the
/// schema stores it widened.
pub open spec fn spec_decode_chat(r: ChatRowModel) -> SummaryModel {
    SummaryModel {
        chat_id: ChatId(r.chat_id),
        title: r.title,
        peer_kind: spec_peer_kind_of(r.peer_kind),
        last_message_id: match r.last_message_id {
            Some(id) => Some(MessageId(id)),
            None => None::<MessageId>,
        },
        last_message_at: r.last_message_at,
        unread_count: match r.unread_count {
            Some(u) => Some(u as u32),
            None => None::<u32>,
        },
    }
}

/// The row a message is stored as; `outgoing` is stored as 0 or 1.
pub open spec fn spec_encode_message(m: MessageModel) -> MessageRowModel {
    MessageRowModel {
        chat_id: m.chat_id.0,
        message_id: m.message_id.0,
        author_id: m.author_id.0,
        timestamp: m.timestamp,
        edit_timestamp: m.edit_timestamp,
        text: m.text,
        outgoing: if m.outgoing {
            1i64
        } else {
            0i64
        },
    }
}

/// The message a row loads as; any non-zero `outgoing` counts as true.
pub open spec fn spec_decode_message(r: MessageRowModel) -> MessageModel {
    MessageModel {
        chat_id: ChatId(r.chat_id),
        message_id: MessageId(r.message_id),
        author_id: UserId(r.author_id),
        timestamp: r.timestamp,
        edit_timestamp: r.edit_timestamp,
        text: r.text,
        outgoing: r.outgoing != 0,
    }
}

/// Storing and loading one summary gives the summary back.
pub proof fn lemma_chat_round_trip(c: SummaryModel)
    ensures
        spec_decode_chat(spec_encode_chat(c)) =~~= c,
{
    lemma_peer_kind_round_trip(c.peer_kind);
}

/// Storing and loading one message gives the message back.
pub proof fn lemma_message_round_trip(m: MessageModel)
    ensures
        spec_decode_message(spec_encode_message(m)) =~~= m,
{
}

/// Serializes one summary.
pub fn encode_chat(c: &ChatSummary) -> (r: ChatRow)
    ensures
        r.model() == spec_encode_chat(c.model()),
{
    let updated_at = match c.last_message_at {
        Some(t) => t,
        None => 0i64,
    };
    let mut peer_kind = String::new();
    crate::text::append_str(&mut peer_kind, c.peer_kind.as_str());
    let r = ChatRow {
        chat_id: c.chat_id.0,
        title: c.title.clone(),
        peer_kind,
        last_message_id: match c.last_message_id {
            Some(id) => Some(id.0),
            None => None,
        },
        last_message_at: c.last_message_at,
        unread_count: match c.unread_count {
            Some(u) => Some(u as i64),
            None => None,
        },
        updated_at,
    };
    proof {
        assert(r.model() =~~= spec_encode_chat(c.model()));
    }
    r
}

/// Loads one summary.
pub fn decode_chat(r: &ChatRow) -> (c: ChatSummary)
    ensures
        c.model() == spec_decode_chat(r.model()),
{
    let c = ChatSummary {
        chat_id: ChatId(r.chat_id),
        title: r.title.clone(),
        peer_kind: ChatPeerKind::from_str(r.peer_kind.as_str()),
        last_message_id: match r.last_message_id {
            Some(id) => Some(MessageId(id)),
            None => None,
        },
        last_message_at: r.last_message_at,
        unread_count: match r.unread_count {
            Some(u) => Some(u as u32),
            None => None,
        },
    };
    proof {
        assert(c.model() =~~= spec_decode_chat(r.model()));
    }
    c
}

/// Serializes one message.
pub fn encode_message(m: &CachedMessage) -> (r: MessageRow)
    ensures
        r.model() == spec_encode_message(m.model()),
{
    let r = MessageRow {
        chat_id: m.chat_id.0,
        message_id: m.message_id.0,
        author_id: m.author_id.0,
        timestamp: m.timestamp,
        edit_timestamp: m.edit_timestamp,
        text: m.text.clone(),
        outgoing: if m.outgoing {
            1
        } else {
            0
        },
    };
    proof {
        assert(r.model() =~~= spec_encode_message(m.model()));
    }
    r
}

/// Loads one message.
pub fn decode_message(r: &MessageRow) -> (m: CachedMessage)
    ensures
        m.model() == spec_decode_message(r.model()),
{
    let m = CachedMessage {
        chat_id: ChatId(r.chat_id),
        message_id: MessageId(r.message_id),
        author_id: UserId(r.author_id),
        timestamp: r.timestamp,
        edit_timestamp: r.edit_timestamp,
        text: r.text.clone(),
        outgoing: r.outgoing != 0,
    };
    proof {
        assert(m.model() =~~= spec_decode_message(r.model()));
    }
    m
}

/// Serializes a whole snapshot into rows, in order.
pub fn encode_snapshot(s: &CacheSnapshot) -> (r: (Vec<ChatRow>, Vec<MessageRow>))
    ensures
        r.0@.len() == s.chats@.len(),
        forall|i: int|
            0 <= i < s.chats@.len() ==> (#[trigger] r.0@[i]).model() == spec_encode_chat(
                s.chats@[i].model(),
            ),
        r.1@.len() == s.messages@.len(),
        forall|i: int|
            0 <= i < s.messages@.len() ==> (#[trigger] r.1@[i]).model() == spec_encode_message(
                s.messages@[i].model(),
            ),
{
    let mut chats: Vec<ChatRow> = Vec::new();
    let n = s.chats.len();
    let mut i: usize = 0;
    while i < n
        invariant
            i <= n,
            n == s.chats@.len(),
            chats@.len() == i,
            forall|j: int|
                0 <= j < i ==> (#[trigger] chats@[j]).model() == spec_encode_chat(
                    s.chats@[j].model(),
                ),
        decreases n - i,
    {
        chats.push(encode_chat(&s.chats[i]));
        i = i + 1;
    }
    let mut messages: Vec<MessageRow> = Vec::new();
    let m = s.messages.len();
    let mut k: usize = 0;
    while k < m
        invariant
            k <= m,
            m == s.messages@.len(),
            messages@.len() == k,
            forall|j: int|
                0 <= j < k ==> (#[trigger] messages@[j]).model() == spec_encode_message(
                    s.messages@[j].model(),
                ),
        decreases m - k,
    {
        messages.push(encode_message(&s.messages[k]));
        k = k + 1;
    }
    (chats, messages)
}

/// Loads a whole snapshot from rows, in the order given.
pub fn decode_snapshot(chats: &Vec<ChatRow>, messages: &Vec<MessageRow>) -> (r: CacheSnapshot)
    ensures
        r.chats@.len() == chats@.len(),
        forall|i: int|
            0 <= i < chats@.len() ==> (#[trigger] r.chats@[i]).model() == spec_decode_chat(
                chats@[i].model(),
            ),
        r.messages@.len() == messages@.len(),
        forall|i: int|
            0 <= i < messages@.len() ==> (#[trigger] r.messages@[i]).model()
                == spec_decode_message(messages@[i].model()),
{
    let mut out_chats: Vec<ChatSummary> = Vec::new();
    let n = chats.len();
    let mut i: usize = 0;
    while i < n
        invariant
            i <= n,
            n == chats@.len(),
            out_chats@.len() == i,
            forall|j: int|
                0 <= j < i ==> (#[trigger] out_chats@[j]).model() == spec_decode_chat(
                    chats@[j].model(),
                ),
        decreases n - i,
    {
        out_chats.push(decode_chat(&chats[i]));
        i = i + 1;
    }
    let mut out_messages: Vec<CachedMessage> = Vec::new();
    let m = messages.len();
    let mut k: usize = 0;
    while k < m
        invariant
            k <= m,
            m == messages@.len(),
            out_messages@.len() == k,
            forall|j: int|
                0 <= j < k ==> (#[trigger] out_messages@[j]).model() == spec_decode_message(
                    messages@[j].model(),
                ),
        decreases m - k,
    {
        out_messages.push(decode_message(&messages[k]));
        k = k + 1;
    }
    CacheSnapshot { chats: out_chats, messages: out_messages }
}

/// The snapshot round trip: loading what was stored gives every summary and
/// every message back unchanged, row for row; and for the messages, loading
/// any reordering of the stored rows (as the database's index order is one)
/// gives the same messages as a multiset.
pub proof fn lemma_snapshot_round_trip(
    chats: Seq<SummaryModel>,
    messages: Seq<MessageModel>,
    stored: Seq<MessageRowModel>,
)
    requires
        stored.to_multiset() == messages.map_values(
            |m: MessageModel| spec_encode_message(m),
        ).to_multiset(),
    ensures
        forall|i: int|
            0 <= i < chats.len() ==> spec_decode_chat(
                spec_encode_chat(#[trigger] chats[i]),
            ) =~~= chats[i],
        stored.map_values(|r: MessageRowModel| spec_decode_message(r)).to_multiset()
            == messages.to_multiset(),
{
    assert forall|i: int|
        0 <= i < chats.len() implies spec_decode_chat(spec_encode_chat(#[trigger] chats[i]))
        =~~= chats[i] by {
        lemma_chat_round_trip(chats[i]);
    }
    lemma_decode_multiset(stored, messages.map_values(|m: MessageModel| spec_encode_message(m)));
    let decoded_encoded = messages.map_values(|m: MessageModel| spec_encode_message(m)).map_values(
        |r: MessageRowModel| spec_decode_message(r),
    );
    assert(decoded_encoded =~~= messages) by {
        assert forall|i: int| 0 <= i < messages.len() implies decoded_encoded[i] =~~= messages[i] by {
            lemma_message_round_trip(messages[i]);
        }
    }
}

/// Decoding maps equal multisets of rows to equal multisets of messages.
proof fn lemma_decode_multiset(a: Seq<MessageRowModel>, b: Seq<MessageRowModel>)
    requires
        a.to_multiset() == b.to_multiset(),
    ensures
        a.map_values(|r: MessageRowModel| spec_decode_message(r)).to_multiset()
            == b.map_values(|r: MessageRowModel| spec_decode_message(r)).to_multiset(),
    decreases a.len(),
{
    a.to_multiset_ensures();
    b.to_multiset_ensures();
    if a.len() == 0 {
        assert(b.len() == 0);
        assert(a.map_values(|r: MessageRowModel| spec_decode_message(r)) =~= b.map_values(
            |r: MessageRowModel| spec_decode_message(r),
        ));
    } else {
        let x = a[0];
        assert(a.to_multiset().count(x) > 0) by {
            assert(a.contains(x));
        }
        assert(b.contains(x)) by {
            assert(b.to_multiset().count(x) > 0);
        }
        let i = choose|i: int| 0 <= i < b.len() && b[i] == x;
        vstd::seq_lib::to_multiset_remove(a, 0);
        vstd::seq_lib::to_multiset_remove(b, i);
        lemma_decode_multiset(a.remove(0), b.remove(i));
        let f = |r: MessageRowModel| spec_decode_message(r);
        assert(a.remove(0).map_values(f) =~= a.map_values(f).remove(0));
        assert(b.remove(i).map_values(f) =~= b.map_values(f).remove(i));
        vstd::seq_lib::to_multiset_remove(a.map_values(f), 0);
        vstd::seq_lib::to_multiset_remove(b.map_values(f), i);
        assert(a.map_values(f)[0] == f(x));
        assert(b.map_values(f)[i] == f(x));
        assert(a.map_values(f).to_multiset().count(f(x)) > 0) by {
            a.map_values(f).to_multiset_ensures();
            assert(a.map_values(f).contains(f(x)));
        }
        assert(b.map_values(f).to_multiset().count(f(x)) > 0) by {
            b.map_values(f).to_multiset_ensures();
            assert(b.map_values(f).contains(f(x)));
        }
        assert(a.map_values(f).to_multiset() =~= a.map_values(f).to_multiset().remove(
            f(x),
        ).insert(f(x)));
        assert(b.map_values(f).to_multiset() =~= b.map_values(f).to_multiset().remove(
            f(x),
        ).insert(f(x)));
    }
}

/// A store of durable snapshots; the convenience mutators are load-mutate-
/// save, with the mutation done by the verified helpers below.
pub trait CacheStore {
    fn load(&self) -> Result<CacheSnapshot, String>;

    fn save(&self, snapshot: &CacheSnapshot) -> Result<(), String>;

    fn upsert_chat(&self, summary: &ChatSummary) -> Result<(), String> {
        let mut snapshot = match self.load() {
            Ok(snapshot) => snapshot,
            Err(e) => {
                return Err(e);
            },
        };
        snapshot_upsert_chat(&mut snapshot, summary);
        self.save(&snapshot)
    }

    fn upsert_message(&self, message: &CachedMessage) -> Result<(), String> {
        let mut snapshot = match self.load() {
            Ok(snapshot) => snapshot,
            Err(e) => {
                return Err(e);
            },
        };
        snapshot_upsert_message(&mut snapshot, message);
        self.save(&snapshot)
    }

    fn delete_message(&self, chat_id: ChatId, message_id: MessageId) -> Result<(), String> {
        let mut snapshot = match self.load() {
            Ok(snapshot) => snapshot,
            Err(e) => {
                return Err(e);
            },
        };
        snapshot_delete_message(&mut snapshot, chat_id, message_id);
        self.save(&snapshot)
    }

    fn clear(&self) -> Result<(), String> {
        self.save(&CacheSnapshot::default())
    }
}

/// Replaces or appends a summary in a snapshot.
pub fn snapshot_upsert_chat(snapshot: &mut CacheSnapshot, summary: &ChatSummary)
    ensures
        final(snapshot).messages@ == old(snapshot).messages@,
        ({
            let found = exists|i: int|
                0 <= i < old(snapshot).chats@.len() && (#[trigger] old(snapshot).chats@[i]).chat_id
                    == summary.chat_id;
            if found {
                final(snapshot).chats@.len() == old(snapshot).chats@.len() && exists|i: int|
                    0 <= i < old(snapshot).chats@.len()
                        && final(snapshot).chats@ == old(snapshot).chats@.update(i, *summary)
                        && (#[trigger] old(snapshot).chats@[i]).chat_id == summary.chat_id
            } else {
                final(snapshot).chats@ == old(snapshot).chats@.push(*summary)
            }
        }),
{
    let n = snapshot.chats.len();
    let mut i: usize = 0;
    while i < n
        invariant
            i <= n,
            n == snapshot.chats@.len(),
            snapshot.chats@ == old(snapshot).chats@,
            snapshot.messages@ == old(snapshot).messages@,
            forall|j: int|
                0 <= j < i ==> (#[trigger] snapshot.chats@[j]).chat_id != summary.chat_id,
        decreases n - i,
    {
        if snapshot.chats[i].chat_id == summary.chat_id {
            let mut entry = snapshot.chats.remove(i);
            entry = summary.clone();
            snapshot.chats.insert(i, entry);
            proof {
                assert(snapshot.chats@ =~= old(snapshot).chats@.update(i as int, *summary));
            }
            return ;
        }
        i = i + 1;
    }
    snapshot.chats.push(summary.clone());
}

/// Replaces or appends a message in a snapshot, keyed by chat and message
/// identifier.
pub fn snapshot_upsert_message(snapshot: &mut CacheSnapshot, message: &CachedMessage)
    ensures
        final(snapshot).chats@ == old(snapshot).chats@,
        ({
            let found = exists|i: int|
                0 <= i < old(snapshot).messages@.len()
                    && (#[trigger] old(snapshot).messages@[i]).chat_id == message.chat_id
                    && old(snapshot).messages@[i].message_id == message.message_id;
            if found {
                exists|i: int|
                    0 <= i < old(snapshot).messages@.len()
                        && final(snapshot).messages@ == old(snapshot).messages@.update(i, *message)
                        && (#[trigger] old(snapshot).messages@[i]).chat_id == message.chat_id
                        && old(snapshot).messages@[i].message_id == message.message_id
            } else {
                final(snapshot).messages@ == old(snapshot).messages@.push(*message)
            }
        }),
{
    let n = snapshot.messages.len();
    let mut i: usize = 0;
    while i < n
        invariant
            i <= n,
            n == snapshot.messages@.len(),
            snapshot.chats@ == old(snapshot).chats@,
            snapshot.messages@ == old(snapshot).messages@,
            forall|j: int|
                0 <= j < i ==> !((#[trigger] snapshot.messages@[j]).chat_id == message.chat_id
                    && snapshot.messages@[j].message_id == message.message_id),
        decreases n - i,
    {
        if snapshot.messages[i].chat_id == message.chat_id && snapshot.messages[i].message_id
            == message.message_id {
            let mut entry = snapshot.messages.remove(i);
            entry = message.clone();
            snapshot.messages.insert(i, entry);
            proof {
                assert(snapshot.messages@ =~= old(snapshot).messages@.update(i as int, *message));
            }
            return ;
        }
        i = i + 1;
    }
    snapshot.messages.push(message.clone());
}

/// Removes one message from a snapshot, keyed by chat and message identifier.
pub fn snapshot_delete_message(snapshot: &mut CacheSnapshot, chat_id: ChatId, message_id: MessageId)
    ensures
        final(snapshot).chats@ == old(snapshot).chats@,
        final(snapshot).messages@.len() <= old(snapshot).messages@.len(),
        forall|j: int|
            0 <= j < final(snapshot).messages@.len()
                ==> !((#[trigger] final(snapshot).messages@[j]).chat_id == chat_id
                && final(snapshot).messages@[j].message_id == message_id),
        forall|j: int|
            0 <= j < final(snapshot).messages@.len() ==> old(snapshot).messages@.contains(
                #[trigger] final(snapshot).messages@[j],
            ),
        forall|j: int|
            (0 <= j < old(snapshot).messages@.len()
                && !((#[trigger] old(snapshot).messages@[j]).chat_id == chat_id
                && old(snapshot).messages@[j].message_id == message_id))
                ==> final(snapshot).messages@.contains(old(snapshot).messages@[j]),
{
    let mut kept: Vec<CachedMessage> = Vec::new();
    let n = snapshot.messages.len();
    let mut i: usize = 0;
    while i < n
        invariant
            i <= n,
            n == snapshot.messages@.len(),
            snapshot.messages@ == old(snapshot).messages@,
            snapshot.chats@ == old(snapshot).chats@,
            kept@.len() <= i,
            forall|j: int|
                0 <= j < kept@.len() ==> !((#[trigger] kept@[j]).chat_id == chat_id && kept@[
                    j
                ].message_id == message_id),
            forall|j: int|
                0 <= j < kept@.len() ==> snapshot.messages@.contains(#[trigger] kept@[j]),
            forall|j: int|
                0 <= j < i && !((#[trigger] snapshot.messages@[j]).chat_id == chat_id
                    && snapshot.messages@[j].message_id == message_id) ==> kept@.contains(
                    snapshot.messages@[j],
                ),
        decreases n - i,
    {
        let keep = !(snapshot.messages[i].chat_id == chat_id && snapshot.messages[i].message_id
            == message_id);
        if keep {
            let ghost kept0 = kept@;
            kept.push(snapshot.messages[i].clone());
            proof {
                assert(kept@[kept@.len() - 1] == snapshot.messages@[i as int]);
                assert forall|j: int|
                    0 <= j < i + 1 && !((#[trigger] snapshot.messages@[j]).chat_id == chat_id
                        && snapshot.messages@[j].message_id == message_id) implies kept@.contains(
                    snapshot.messages@[j],
                ) by {
                    if j < i {
                        let w = choose|w: int|
                            0 <= w < kept0.len() && kept0[w] == snapshot.messages@[j];
                        assert(kept@[w] == snapshot.messages@[j]);
                    }
                }
            }
        } else {
            proof {
                assert forall|j: int|
                    0 <= j < i + 1 && !((#[trigger] snapshot.messages@[j]).chat_id == chat_id
                        && snapshot.messages@[j].message_id == message_id) implies kept@.contains(
                    snapshot.messages@[j],
                ) by {
                    assert(j != i);
                }
            }
        }
        i = i + 1;
    }
    snapshot.messages = kept;
}

} // verus!

//! In-memory chat/message cache: applies domain events, keeps three
//! independent limits (chat count, messages per chat, byte budget), and
//! accounts its approximate memory use exactly.
//!
//! Every cache value is mirrored by a ghost model (`SummaryModel`,
//! `MessageModel`, `EntryModel`); the contracts of all mutating operations
//! say precisely which model the cache holds afterwards.

use vstd::prelude::*;

use crate::events::{ChatId, DomainEvent, MessageId, UserId};

verus! {

/// Fixed per-message accounting overhead, in bytes.
pub const MESSAGE_OVERHEAD_BYTES: usize = 64;

/// Fixed per-chat-summary accounting overhead, in bytes.
pub const CHAT_OVERHEAD_BYTES: usize = 64;

/// The class of peer a chat belongs to.
#[derive(Debug, Clone, Copy, PartialEq, Eq, Structural)]
pub enum ChatPeerKind {
    User,
    Group,
    Channel,
    Unknown,
}

/// What the cache knows about one chat, apart from its recent messages.
#[derive(Debug, PartialEq, Eq)]
pub struct ChatSummary {
    pub chat_id: ChatId,
    pub title: String,
    pub peer_kind: ChatPeerKind,
    pub last_message_id: Option<MessageId>,
    pub last_message_at: Option<i64>,
    pub unread_count: Option<u32>,
}

/// One cached message.
#[derive(Debug, PartialEq, Eq)]
pub struct CachedMessage {
    pub chat_id: ChatId,
    pub message_id: MessageId,
    pub author_id: UserId,
    pub timestamp: i64,
    pub edit_timestamp: Option<i64>,
    pub text: String,
    pub outgoing: bool,
}

/// The three eviction limits; a limit of 0 disables its rule.
#[derive(Debug, Clone, Copy)]
pub struct CacheLimits {
    pub max_chats: usize,
    pub max_messages_per_chat: usize,
    pub max_bytes: usize,
}

/// Where the durable snapshot lives and how the cache is bounded.
#[derive(Debug)]
pub struct CacheConfig {
    pub db_path: String,
    pub limits: CacheLimits,
    pub flush_debounce_ms: u64,
}

/// An ordered copy of everything the cache holds.
#[derive(Debug, PartialEq, Eq)]
pub struct CacheSnapshot {
    pub chats: Vec<ChatSummary>,
    pub messages: Vec<CachedMessage>,
}

/// The ghost image of a chat summary, with the title as a character
/// sequence.
#[verifier::ext_equal]
pub struct SummaryModel {
    pub chat_id: ChatId,
    pub title: Seq<char>,
    pub peer_kind: ChatPeerKind,
    pub last_message_id: Option<MessageId>,
    pub last_message_at: Option<i64>,
    pub unread_count: Option<u32>,
}

/// The ghost image of a cached message.
#[verifier::ext_equal]
pub struct MessageModel {
    pub chat_id: ChatId,
    pub message_id: MessageId,
    pub author_id: UserId,
    pub timestamp: i64,
    pub edit_timestamp: Option<i64>,
    pub text: Seq<char>,
    pub outgoing: bool,
}

/// The ghost image of one chat entry: its summary, its messages in arrival
/// order, and the time of its last mutation.
#[verifier::ext_equal]
pub struct EntryModel {
    pub summary: SummaryModel,
    pub messages: Seq<MessageModel>,
    pub updated_at: i64,
}

impl ChatSummary {
    pub open spec fn model(&self) -> SummaryModel {
        SummaryModel {
            chat_id: self.chat_id,
            title: self.title@,
            peer_kind: self.peer_kind,
            last_message_id: self.last_message_id,
            last_message_at: self.last_message_at,
            unread_count: self.unread_count,
        }
    }
}

impl CachedMessage {
    pub open spec fn model(&self) -> MessageModel {
        MessageModel {
            chat_id: self.chat_id,
            message_id: self.message_id,
            author_id: self.author_id,
            timestamp: self.timestamp,
            edit_timestamp: self.edit_timestamp,
            text: self.text@,
            outgoing: self.outgoing,
        }
    }
}

impl Clone for ChatSummary {
    fn clone(&self) -> (res: Self)
        ensures
            res == *self,
    {
        ChatSummary {
            chat_id: self.chat_id,
            title: self.title.clone(),
            peer_kind: self.peer_kind,
            last_message_id: self.last_message_id,
            last_message_at: self.last_message_at,
            unread_count: self.unread_count,
        }
    }
}

impl Clone for CachedMessage {
    fn clone(&self) -> (res: Self)
        ensures
            res == *self,
    {
        CachedMessage {
            chat_id: self.chat_id,
            message_id: self.message_id,
            author_id: self.author_id,
            timestamp: self.timestamp,
            edit_timestamp: self.edit_timestamp,
            text: self.text.clone(),
            outgoing: self.outgoing,
        }
    }
}

impl Clone for CacheConfig {
    fn clone(&self) -> (res: Self)
        ensures
            res == *self,
    {
        CacheConfig {
            db_path: self.db_path.clone(),
            limits: self.limits,
            flush_debounce_ms: self.flush_debounce_ms,
        }
    }
}

impl Default for CacheSnapshot {
    fn default() -> (r: Self)
        ensures
            r.chats@ =~= Seq::<ChatSummary>::empty(),
            r.messages@ =~= Seq::<CachedMessage>::empty(),
    {
        CacheSnapshot { chats: Vec::new(), messages: Vec::new() }
    }
}

impl Clone for CacheSnapshot {
    fn clone(&self) -> (res: Self)
        ensures
            res.chats@ == self.chats@,
            res.messages@ == self.messages@,
    {
        let mut chats: Vec<ChatSummary> = Vec::new();
        let mut i: usize = 0;
        while i < self.chats.len()
            invariant
                i <= self.chats@.len(),
                chats@.len() == i,
                forall|j: int| 0 <= j < i ==> chats@[j] == self.chats@[j],
            decreases self.chats@.len() - i,
        {
            chats.push(self.chats[i].clone());
            i = i + 1;
        }
        let mut messages: Vec<CachedMessage> = Vec::new();
        let mut k: usize = 0;
        while k < self.messages.len()
            invariant
                k <= self.messages@.len(),
                messages@.len() == k,
                forall|j: int| 0 <= j < k ==> messages@[j] == self.messages@[j],
            decreases self.messages@.len() - k,
        {
            messages.push(self.messages[k].clone());
            k = k + 1;
        }
        proof {
            assert(chats@ =~= self.chats@);
            assert(messages@ =~= self.messages@);
        }
        CacheSnapshot { chats, messages }
    }
}

/// How many chats and messages one round of eviction removed.
#[derive(Debug, Clone, Copy)]
pub struct EvictionStats {
    pub chats_evicted: usize,
    pub messages_evicted: usize,
}

impl EvictionStats {
    pub fn any_evicted(self) -> (r: bool)
        ensures
            r == (self.chats_evicted > 0 || self.messages_evicted > 0),
    {
        self.chats_evicted > 0 || self.messages_evicted > 0
    }
}

/// One chat held by the cache: its summary, its messages in arrival order,
/// the time of its last mutation, and its running byte accounts.
#[derive(Debug)]
pub struct ChatEntry {
    pub summary: ChatSummary,
    pub messages: Vec<CachedMessage>,
    pub updated_at: i64,
    pub message_bytes: usize,
    pub summary_bytes: usize,
}

/// Byte length of a text, as the accounting sees it.
pub open spec fn spec_text_len(s: Seq<char>) -> usize {
    vstd::utf8::encode_utf8(s).len() as usize
}

/// Accounted size of one message: its text bytes plus a fixed overhead.
pub open spec fn spec_message_size(m: MessageModel) -> usize {
    spec_text_len(m.text).saturating_add(MESSAGE_OVERHEAD_BYTES)
}

/// Accounted size of one summary: its title bytes plus a fixed overhead.
pub open spec fn spec_summary_size(s: SummaryModel) -> usize {
    spec_text_len(s.title).saturating_add(CHAT_OVERHEAD_BYTES)
}

/// Sum of the accounted sizes of a message sequence.
pub open spec fn seq_message_bytes(ms: Seq<MessageModel>) -> int
    decreases ms.len(),
{
    if ms.len() == 0 {
        0
    } else {
        spec_message_size(ms[0]) + seq_message_bytes(ms.drop_first())
    }
}

/// Accounted size of one whole entry.
pub open spec fn entry_model_bytes(e: EntryModel) -> int {
    spec_summary_size(e.summary) + seq_message_bytes(e.messages)
}

/// Sum of the accounted sizes of all entries.
pub open spec fn total_model_bytes(m: Seq<EntryModel>) -> int
    decreases m.len(),
{
    if m.len() == 0 {
        0
    } else {
        entry_model_bytes(m[0]) + total_model_bytes(m.drop_first())
    }
}

/// Total number of messages across all entries.
pub open spec fn total_message_count(m: Seq<EntryModel>) -> int
    decreases m.len(),
{
    if m.len() == 0 {
        0
    } else {
        m[0].messages.len() + total_message_count(m.drop_first())
    }
}

pub proof fn lemma_seq_message_bytes_nonneg(ms: Seq<MessageModel>)
    ensures
        seq_message_bytes(ms) >= 0,
    decreases ms.len(),
{
    if ms.len() > 0 {
        lemma_seq_message_bytes_nonneg(ms.drop_first());
    }
}

pub proof fn lemma_seq_message_bytes_push(ms: Seq<MessageModel>, m: MessageModel)
    ensures
        seq_message_bytes(ms.push(m)) == seq_message_bytes(ms) + spec_message_size(m),
    decreases ms.len(),
{
    if ms.len() == 0 {
        assert(ms.push(m).len() == 1);
        assert(ms.push(m)[0] == m);
        assert(ms.push(m).drop_first() =~= Seq::<MessageModel>::empty());
        assert(seq_message_bytes(Seq::<MessageModel>::empty()) == 0);
        assert(seq_message_bytes(ms) == 0);
        assert(seq_message_bytes(ms.push(m)) == spec_message_size(ms.push(m)[0])
            + seq_message_bytes(ms.push(m).drop_first()));
    } else {
        assert(ms.push(m)[0] == ms[0]);
        assert(ms.push(m).drop_first() =~= ms.drop_first().push(m));
        lemma_seq_message_bytes_push(ms.drop_first(), m);
    }
}

pub proof fn lemma_seq_message_bytes_update(ms: Seq<MessageModel>, i: int, m: MessageModel)
    requires
        0 <= i < ms.len(),
    ensures
        seq_message_bytes(ms.update(i, m)) == seq_message_bytes(ms) - spec_message_size(ms[i])
            + spec_message_size(m),
    decreases ms.len(),
{
    if i == 0 {
        assert(ms.update(0, m).drop_first() =~= ms.drop_first());
    } else {
        assert(ms.update(i, m).drop_first() =~= ms.drop_first().update(i - 1, m));
        lemma_seq_message_bytes_update(ms.drop_first(), i - 1, m);
    }
}

pub proof fn lemma_total_model_bytes_nonneg(m: Seq<EntryModel>)
    ensures
        total_model_bytes(m) >= 0,
    decreases m.len(),
{
    if m.len() > 0 {
        lemma_seq_message_bytes_nonneg(m[0].messages);
        lemma_total_model_bytes_nonneg(m.drop_first());
    }
}

pub proof fn lemma_total_model_bytes_push(m: Seq<EntryModel>, e: EntryModel)
    ensures
        total_model_bytes(m.push(e)) == total_model_bytes(m) + entry_model_bytes(e),
    decreases m.len(),
{
    if m.len() == 0 {
        assert(m.push(e).len() == 1);
        assert(m.push(e)[0] == e);
        assert(m.push(e).drop_first() =~= Seq::<EntryModel>::empty());
        assert(total_model_bytes(Seq::<EntryModel>::empty()) == 0);
        assert(total_model_bytes(m) == 0);
        assert(total_model_bytes(m.push(e)) == entry_model_bytes(m.push(e)[0])
            + total_model_bytes(m.push(e).drop_first()));
    } else {
        assert(m.push(e)[0] == m[0]);
        assert(m.push(e).drop_first() =~= m.drop_first().push(e));
        lemma_total_model_bytes_push(m.drop_first(), e);
    }
}

pub proof fn lemma_total_model_bytes_update(m: Seq<EntryModel>, i: int, e: EntryModel)
    requires
        0 <= i < m.len(),
    ensures
        total_model_bytes(m.update(i, e)) == total_model_bytes(m) - entry_model_bytes(m[i])
            + entry_model_bytes(e),
    decreases m.len(),
{
    if i == 0 {
        assert(m.update(0, e).drop_first() =~= m.drop_first());
    } else {
        assert(m.update(i, e).drop_first() =~= m.drop_first().update(i - 1, e));
        lemma_total_model_bytes_update(m.drop_first(), i - 1, e);
    }
}

pub proof fn lemma_total_model_bytes_remove(m: Seq<EntryModel>, i: int)
    requires
        0 <= i < m.len(),
    ensures
        total_model_bytes(m.remove(i)) == total_model_bytes(m) - entry_model_bytes(m[i]),
    decreases m.len(),
{
    if i == 0 {
        assert(m.remove(0) =~= m.drop_first());
    } else {
        assert(m.remove(i).drop_first() =~= m.drop_first().remove(i - 1));
        lemma_total_model_bytes_remove(m.drop_first(), i - 1);
    }
}

/// Any one message's size is bounded by the sum over its sequence.
pub proof fn lemma_seq_message_bytes_ge_elem(ms: Seq<MessageModel>, j: int)
    requires
        0 <= j < ms.len(),
    ensures
        seq_message_bytes(ms) >= spec_message_size(ms[j]),
    decreases ms.len(),
{
    lemma_seq_message_bytes_nonneg(ms.drop_first());
    if j > 0 {
        lemma_seq_message_bytes_ge_elem(ms.drop_first(), j - 1);
    }
}

/// Any one entry's size is bounded by the total over all entries.
pub proof fn lemma_total_ge_entry(m: Seq<EntryModel>, i: int)
    requires
        0 <= i < m.len(),
    ensures
        total_model_bytes(m) >= entry_model_bytes(m[i]),
    decreases m.len(),
{
    lemma_total_model_bytes_nonneg(m.drop_first());
    if i == 0 {
        lemma_seq_message_bytes_nonneg(m[0].messages);
    } else {
        lemma_seq_message_bytes_nonneg(m[0].messages);
        lemma_total_ge_entry(m.drop_first(), i - 1);
    }
}

pub proof fn lemma_total_message_count_nonneg(m: Seq<EntryModel>)
    ensures
        total_message_count(m) >= 0,
    decreases m.len(),
{
    if m.len() > 0 {
        lemma_total_message_count_nonneg(m.drop_first());
    }
}

pub proof fn lemma_total_message_count_update(m: Seq<EntryModel>, i: int, e: EntryModel)
    requires
        0 <= i < m.len(),
    ensures
        total_message_count(m.update(i, e)) == total_message_count(m) - m[i].messages.len()
            + e.messages.len(),
    decreases m.len(),
{
    if i == 0 {
        assert(m.update(0, e).drop_first() =~= m.drop_first());
    } else {
        assert(m.update(i, e).drop_first() =~= m.drop_first().update(i - 1, e));
        lemma_total_message_count_update(m.drop_first(), i - 1, e);
    }
}

pub proof fn lemma_total_message_count_remove(m: Seq<EntryModel>, i: int)
    requires
        0 <= i < m.len(),
    ensures
        total_message_count(m.remove(i)) == total_message_count(m) - m[i].messages.len(),
    decreases m.len(),
{
    if i == 0 {
        assert(m.remove(0) =~= m.drop_first());
    } else {
        assert(m.remove(i).drop_first() =~= m.drop_first().remove(i - 1));
        lemma_total_message_count_remove(m.drop_first(), i - 1);
    }
}

/// One entry's message count is bounded by the total message count.
pub proof fn lemma_entry_count_le_total_aux(m: Seq<EntryModel>, i: int)
    requires
        0 <= i < m.len(),
    ensures
        m[i].messages.len() <= total_message_count(m),
    decreases m.len(),
{
    lemma_total_message_count_nonneg(m.drop_first());
    if i > 0 {
        lemma_entry_count_le_total_aux(m.drop_first(), i - 1);
    }
}

/// Every message costs at least its fixed overhead, so the message count is
/// bounded by the byte total.
pub proof fn lemma_count_bounded_by_bytes(m: Seq<EntryModel>)
    ensures
        64 * total_message_count(m) <= total_model_bytes(m),
    decreases m.len(),
{
    if m.len() > 0 {
        lemma_count_bounded_by_bytes(m.drop_first());
        lemma_entry_count_bounded(m[0].messages);
    }
}

proof fn lemma_entry_count_bounded(ms: Seq<MessageModel>)
    ensures
        64 * ms.len() <= seq_message_bytes(ms),
    decreases ms.len(),
{
    if ms.len() > 0 {
        lemma_entry_count_bounded(ms.drop_first());
    }
}

impl ChatEntry {
    /// The ghost image of this entry.
    pub open spec fn model(&self) -> EntryModel {
        EntryModel {
            summary: self.summary.model(),
            messages: self.messages@.map_values(|m: CachedMessage| m.model()),
            updated_at: self.updated_at,
        }
    }

    /// The derived byte accounts match the entry's contents, messages belong
    /// to this chat, and message identifiers are unique.
    pub open spec fn wf(&self) -> bool {
        &&& self.message_bytes == seq_message_bytes(self.model().messages)
        &&& self.summary_bytes == spec_summary_size(self.summary.model())
        &&& entry_model_wf(self.model())
    }
}

/// Message identifiers are unique within an entry and every message belongs
/// to the entry's chat.
pub open spec fn entry_model_wf(e: EntryModel) -> bool {
    &&& forall|i: int, j: int|
        0 <= i < j < e.messages.len() ==> (#[trigger] e.messages[i]).message_id
            != (#[trigger] e.messages[j]).message_id
    &&& forall|i: int|
        0 <= i < e.messages.len() ==> (#[trigger] e.messages[i]).chat_id == e.summary.chat_id
}

/// The ghost image of a cache is indexed entrywise.
pub proof fn lemma_cache_model_index(c: ChatCache)
    ensures
        c.model().len() == c.chats@.len(),
        forall|j: int| 0 <= j < c.chats@.len() ==> #[trigger] c.model()[j] == c.chats@[j].model(),
{
}

/// The ghost image of an entry's messages is indexed messagewise.
pub proof fn lemma_entry_model_index(e: ChatEntry)
    ensures
        e.model().messages.len() == e.messages@.len(),
        forall|j: int|
            0 <= j < e.messages@.len() ==> #[trigger] e.model().messages[j]
                == e.messages@[j].model(),
{
}

/// A first match pins down `chat_index` exactly.
pub proof fn lemma_chat_index_of_first(m: Seq<EntryModel>, id: ChatId, i: int)
    requires
        0 <= i < m.len(),
        m[i].summary.chat_id == id,
        forall|j: int| 0 <= j < i ==> (#[trigger] m[j]).summary.chat_id != id,
    ensures
        chat_index(m, id) == i,
{
    lemma_chat_index_props(m, id);
    let ci = chat_index(m, id);
    if ci < 0 {
        assert(m[i].summary.chat_id != id);
    } else if ci < i {
        assert(m[ci].summary.chat_id != id);
    } else if ci > i {
        assert(m[i].summary.chat_id != id);
    }
}

/// A first match pins down `msg_index` exactly.
pub proof fn lemma_msg_index_of_first(ms: Seq<MessageModel>, id: MessageId, i: int)
    requires
        0 <= i < ms.len(),
        ms[i].message_id == id,
        forall|j: int| 0 <= j < i ==> (#[trigger] ms[j]).message_id != id,
    ensures
        msg_index(ms, id) == i,
{
    lemma_msg_index_props(ms, id);
    let ci = msg_index(ms, id);
    if ci < 0 {
        assert(ms[i].message_id != id);
    } else if ci < i {
        assert(ms[ci].message_id != id);
    } else if ci > i {
        assert(ms[i].message_id != id);
    }
}

/// No match pins `chat_index` to -1.
pub proof fn lemma_chat_index_absent(m: Seq<EntryModel>, id: ChatId)
    requires
        forall|j: int| 0 <= j < m.len() ==> (#[trigger] m[j]).summary.chat_id != id,
    ensures
        chat_index(m, id) < 0,
{
    lemma_chat_index_props(m, id);
    let ci = chat_index(m, id);
    if ci >= 0 {
        assert(m[ci].summary.chat_id != id);
    }
}

/// No match pins `msg_index` to -1.
pub proof fn lemma_msg_index_absent(ms: Seq<MessageModel>, id: MessageId)
    requires
        forall|j: int| 0 <= j < ms.len() ==> (#[trigger] ms[j]).message_id != id,
    ensures
        msg_index(ms, id) < 0,
{
    lemma_msg_index_props(ms, id);
    let ci = msg_index(ms, id);
    if ci >= 0 {
        assert(ms[ci].message_id != id);
    }
}

/// Inserting a message that belongs to the entry's chat preserves the
/// entry's internal well-formedness.
pub proof fn lemma_entry_wf_after_insert(e: EntryModel, c: MessageModel)
    requires
        entry_model_wf(e),
        c.chat_id == e.summary.chat_id,
    ensures
        entry_model_wf(entry_with_message(e, c)),
{
    lemma_msg_index_props(e.messages, c.message_id);
    let j = msg_index(e.messages, c.message_id);
    let e2 = entry_with_message(e, c);
    if j >= 0 {
        let msgs = e.messages.update(j, c);
        assert(e.messages[j].message_id == c.message_id);
        assert forall|a: int, b: int|
            0 <= a < b < msgs.len() implies (#[trigger] msgs[a]).message_id
            != (#[trigger] msgs[b]).message_id by {
            assert(e.messages[a].message_id != e.messages[b].message_id);
        }
    } else {
        let msgs = e.messages.push(c);
        assert forall|a: int, b: int|
            0 <= a < b < msgs.len() implies (#[trigger] msgs[a]).message_id
            != (#[trigger] msgs[b]).message_id by {
            if b == msgs.len() - 1 {
                assert(e.messages[a].message_id != c.message_id);
            } else {
                assert(e.messages[a].message_id != e.messages[b].message_id);
            }
        }
    }
}

/// First index of the chat with the given identifier, or -1 when absent.
pub open spec fn chat_index(m: Seq<EntryModel>, id: ChatId) -> int
    decreases m.len(),
{
    if m.len() == 0 {
        -1
    } else if m[0].summary.chat_id == id {
        0
    } else {
        let r = chat_index(m.drop_first(), id);
        if r < 0 {
            -1
        } else {
            r + 1
        }
    }
}

/// `chat_index` finds the first entry with the identifier, and -1 exactly
/// when no entry has it.
pub proof fn lemma_chat_index_props(m: Seq<EntryModel>, id: ChatId)
    ensures
        chat_index(m, id) >= 0 ==> {
            &&& chat_index(m, id) < m.len()
            &&& m[chat_index(m, id)].summary.chat_id == id
            &&& forall|j: int| 0 <= j < chat_index(m, id) ==> m[j].summary.chat_id != id
        },
        chat_index(m, id) < 0 ==> forall|j: int| 0 <= j < m.len() ==> m[j].summary.chat_id != id,
    decreases m.len(),
{
    if m.len() > 0 && m[0].summary.chat_id != id {
        lemma_chat_index_props(m.drop_first(), id);
        assert(forall|j: int| 0 < j < m.len() ==> m[j] == m.drop_first()[j - 1]);
    }
}

/// First index of the message with the given identifier, or -1 when absent.
pub open spec fn msg_index(ms: Seq<MessageModel>, id: MessageId) -> int
    decreases ms.len(),
{
    if ms.len() == 0 {
        -1
    } else if ms[0].message_id == id {
        0
    } else {
        let r = msg_index(ms.drop_first(), id);
        if r < 0 {
            -1
        } else {
            r + 1
        }
    }
}

pub proof fn lemma_msg_index_props(ms: Seq<MessageModel>, id: MessageId)
    ensures
        msg_index(ms, id) >= 0 ==> {
            &&& msg_index(ms, id) < ms.len()
            &&& ms[msg_index(ms, id)].message_id == id
            &&& forall|j: int| 0 <= j < msg_index(ms, id) ==> ms[j].message_id != id
        },
        msg_index(ms, id) < 0 ==> forall|j: int| 0 <= j < ms.len() ==> ms[j].message_id != id,
    decreases ms.len(),
{
    if ms.len() > 0 && ms[0].message_id != id {
        lemma_msg_index_props(ms.drop_first(), id);
        assert(forall|j: int| 0 < j < ms.len() ==> ms[j] == ms.drop_first()[j - 1]);
    }
}

/// First index of the entry with the smallest `updated_at` (ties keep the
/// earliest index); meaningful only for non-empty sequences.
pub open spec fn least_recent_index(m: Seq<EntryModel>) -> int
    decreases m.len(),
{
    if m.len() <= 1 {
        0
    } else {
        let r = least_recent_index(m.drop_first());
        if m[0].updated_at <= m.drop_first()[r].updated_at {
            0
        } else {
            r + 1
        }
    }
}

pub proof fn lemma_least_recent_index_props(m: Seq<EntryModel>)
    requires
        m.len() > 0,
    ensures
        0 <= least_recent_index(m) < m.len(),
        forall|j: int|
            0 <= j < m.len() ==> m[least_recent_index(m)].updated_at <= (#[trigger] m[j]).updated_at,
        forall|j: int|
            0 <= j < least_recent_index(m) ==> m[least_recent_index(m)].updated_at
                < (#[trigger] m[j]).updated_at,
    decreases m.len(),
{
    if m.len() > 1 {
        lemma_least_recent_index_props(m.drop_first());
        assert(forall|j: int| 0 < j < m.len() ==> m[j] == m.drop_first()[j - 1]);
    }
}

/// The ghost image of the new message built from a new-message event.
pub open spec fn model_of_new(msg: crate::events::MessageNew) -> MessageModel {
    MessageModel {
        chat_id: msg.chat_id,
        message_id: msg.message_id,
        author_id: msg.author_id,
        timestamp: msg.timestamp,
        edit_timestamp: None,
        text: msg.text@,
        outgoing: msg.outgoing,
    }
}

/// The stub summary auto-created when a message arrives for an unknown chat.
pub open spec fn stub_summary(chat_id: ChatId) -> SummaryModel {
    SummaryModel {
        chat_id,
        title: Seq::empty(),
        peer_kind: ChatPeerKind::Unknown,
        last_message_id: None,
        last_message_at: None,
        unread_count: None,
    }
}

/// Inserting a message into one entry: overwrite in place when the message
/// identifier exists, else append; then point the summary at the back of the
/// deque and refresh the mutation time.
pub open spec fn entry_with_message(e: EntryModel, c: MessageModel) -> EntryModel {
    let j = msg_index(e.messages, c.message_id);
    let msgs = if j >= 0 {
        e.messages.update(j, c)
    } else {
        e.messages.push(c)
    };
    let last = msgs.last();
    EntryModel {
        summary: SummaryModel {
            chat_id: e.summary.chat_id,
            title: e.summary.title,
            peer_kind: e.summary.peer_kind,
            last_message_id: Some(last.message_id),
            last_message_at: Some(last.timestamp),
            unread_count: e.summary.unread_count,
        },
        messages: msgs,
        updated_at: last.timestamp,
    }
}

/// What a new-message event does before eviction: insert into the existing
/// entry, or auto-create a stub entry.
pub open spec fn apply_insert_message(m: Seq<EntryModel>, c: MessageModel) -> Seq<EntryModel> {
    let i = chat_index(m, c.chat_id);
    if i >= 0 {
        m.update(i, entry_with_message(m[i], c))
    } else {
        m.push(
            entry_with_message(
                EntryModel {
                    summary: stub_summary(c.chat_id),
                    messages: Seq::empty(),
                    updated_at: 0,
                },
                c,
            ),
        )
    }
}

/// What an edit event does before eviction: update text and edit time of the
/// addressed message; a no-op when chat or message is unknown.
pub open spec fn apply_edit_message(
    m: Seq<EntryModel>,
    chat_id: ChatId,
    message_id: MessageId,
    text: Seq<char>,
    timestamp: i64,
) -> Seq<EntryModel> {
    let i = chat_index(m, chat_id);
    if i < 0 {
        m
    } else {
        let e = m[i];
        let j = msg_index(e.messages, message_id);
        if j < 0 {
            m
        } else {
            let old_msg = e.messages[j];
            let new_msg = MessageModel {
                chat_id: old_msg.chat_id,
                message_id: old_msg.message_id,
                author_id: old_msg.author_id,
                timestamp: old_msg.timestamp,
                edit_timestamp: Some(timestamp),
                text: text,
                outgoing: old_msg.outgoing,
            };
            m.update(
                i,
                EntryModel {
                    summary: e.summary,
                    messages: e.messages.update(j, new_msg),
                    updated_at: timestamp,
                },
            )
        }
    }
}

/// What a read receipt does: zero the unread count and refresh the mutation
/// time; a no-op when the chat is unknown.
pub open spec fn apply_read_receipt(m: Seq<EntryModel>, chat_id: ChatId, timestamp: i64) -> Seq<
    EntryModel,
> {
    let i = chat_index(m, chat_id);
    if i < 0 {
        m
    } else {
        let e = m[i];
        m.update(
            i,
            EntryModel {
                summary: SummaryModel {
                    chat_id: e.summary.chat_id,
                    title: e.summary.title,
                    peer_kind: e.summary.peer_kind,
                    last_message_id: e.summary.last_message_id,
                    last_message_at: e.summary.last_message_at,
                    unread_count: Some(0u32),
                },
                messages: e.messages,
                updated_at: timestamp,
            },
        )
    }
}

/// What one domain event does to the cache before eviction.
pub open spec fn apply_core(m: Seq<EntryModel>, e: DomainEvent) -> Seq<EntryModel> {
    match e {
        DomainEvent::MessageNew(msg) => apply_insert_message(m, model_of_new(msg)),
        DomainEvent::MessageEdited(msg) => apply_edit_message(
            m,
            msg.chat_id,
            msg.message_id,
            msg.text@,
            msg.timestamp,
        ),
        DomainEvent::ReadReceipt(r) => apply_read_receipt(m, r.chat_id, r.timestamp),
        DomainEvent::Typing(_) => m,
    }
}

/// What replacing a summary does: overwrite the summary of the existing
/// entry, or append a fresh entry without messages. The mutation time becomes
/// the summary's last-message time, or 0 without one.
pub open spec fn apply_upsert_chat(m: Seq<EntryModel>, s: SummaryModel) -> Seq<EntryModel> {
    let updated_at = match s.last_message_at {
        Some(t) => t,
        None => 0i64,
    };
    let i = chat_index(m, s.chat_id);
    if i >= 0 {
        m.update(i, EntryModel { summary: s, messages: m[i].messages, updated_at })
    } else {
        m.push(EntryModel { summary: s, messages: Seq::empty(), updated_at })
    }
}

/// Message eviction for one entry: drop the oldest messages until the limit
/// holds (0 disables).
pub open spec fn trim_entry(e: EntryModel, max_messages: usize) -> EntryModel {
    if max_messages > 0 && e.messages.len() > max_messages {
        EntryModel {
            summary: e.summary,
            messages: e.messages.skip(e.messages.len() - max_messages),
            updated_at: e.updated_at,
        }
    } else {
        e
    }
}

pub open spec fn trim_entries(m: Seq<EntryModel>, max_messages: usize) -> Seq<EntryModel> {
    m.map_values(|e: EntryModel| trim_entry(e, max_messages))
}

/// Chat-count eviction: remove the least recently updated chat until the
/// count fits (0 disables).
pub open spec fn evict_count(m: Seq<EntryModel>, max_chats: usize) -> Seq<EntryModel>
    decreases m.len(),
    via evict_count_decreases
{
    if max_chats > 0 && m.len() > max_chats {
        evict_count(m.remove(least_recent_index(m)), max_chats)
    } else {
        m
    }
}

#[via_fn]
proof fn evict_count_decreases(m: Seq<EntryModel>, max_chats: usize) {
    if max_chats > 0 && m.len() > max_chats {
        lemma_least_recent_index_props(m);
    }
}

/// Byte-budget eviction: remove the least recently updated chat until the
/// accounted bytes fit (0 disables).
pub open spec fn evict_bytes(m: Seq<EntryModel>, max_bytes: usize) -> Seq<EntryModel>
    decreases m.len(),
    via evict_bytes_decreases
{
    if max_bytes > 0 && total_model_bytes(m) > max_bytes && m.len() > 0 {
        evict_bytes(m.remove(least_recent_index(m)), max_bytes)
    } else {
        m
    }
}

#[via_fn]
proof fn evict_bytes_decreases(m: Seq<EntryModel>, max_bytes: usize) {
    if max_bytes > 0 && total_model_bytes(m) > max_bytes && m.len() > 0 {
        lemma_least_recent_index_props(m);
    }
}

/// A first minimum pins down `least_recent_index` exactly.
pub proof fn lemma_least_recent_of_first(m: Seq<EntryModel>, i: int)
    requires
        0 <= i < m.len(),
        forall|j: int| 0 <= j < m.len() ==> m[i].updated_at <= (#[trigger] m[j]).updated_at,
        forall|j: int| 0 <= j < i ==> (#[trigger] m[j]).updated_at > m[i].updated_at,
    ensures
        least_recent_index(m) == i,
{
    lemma_least_recent_index_props(m);
    let li = least_recent_index(m);
    if li < i {
        assert(m[li].updated_at > m[i].updated_at);
        assert(m[i].updated_at <= m[li].updated_at);
    } else if li > i {
        assert(m[i].updated_at > m[li].updated_at);
        assert(m[li].updated_at <= m[i].updated_at);
    }
}

/// Sum of the accounted sizes of a summary sequence.
pub open spec fn seq_summary_bytes(ss: Seq<SummaryModel>) -> int
    decreases ss.len(),
{
    if ss.len() == 0 {
        0
    } else {
        spec_summary_size(ss[0]) + seq_summary_bytes(ss.drop_first())
    }
}

/// The byte budget needed to insert a message sequence one by one, counting a
/// possible stub chat for each.
pub open spec fn seq_insert_budget(ms: Seq<MessageModel>) -> int
    decreases ms.len(),
{
    if ms.len() == 0 {
        0
    } else {
        spec_message_size(ms[0]) + CHAT_OVERHEAD_BYTES + seq_insert_budget(ms.drop_first())
    }
}

pub proof fn lemma_seq_summary_bytes_nonneg(ss: Seq<SummaryModel>)
    ensures
        seq_summary_bytes(ss) >= 0,
    decreases ss.len(),
{
    if ss.len() > 0 {
        lemma_seq_summary_bytes_nonneg(ss.drop_first());
    }
}

pub proof fn lemma_seq_insert_budget_nonneg(ms: Seq<MessageModel>)
    ensures
        seq_insert_budget(ms) >= 0,
    decreases ms.len(),
{
    if ms.len() > 0 {
        lemma_seq_insert_budget_nonneg(ms.drop_first());
    }
}

/// Loading a snapshot, first phase: replay every summary in order.
pub open spec fn load_chats(m: Seq<EntryModel>, ss: Seq<SummaryModel>) -> Seq<EntryModel>
    decreases ss.len(),
{
    if ss.len() == 0 {
        m
    } else {
        load_chats(apply_upsert_chat(m, ss[0]), ss.drop_first())
    }
}

/// Loading a snapshot, second phase: replay every message in order.
pub open spec fn load_messages(m: Seq<EntryModel>, ms: Seq<MessageModel>) -> Seq<EntryModel>
    decreases ms.len(),
{
    if ms.len() == 0 {
        m
    } else {
        load_messages(apply_insert_message(m, ms[0]), ms.drop_first())
    }
}

pub proof fn lemma_load_chats_push(m: Seq<EntryModel>, ss: Seq<SummaryModel>, x: SummaryModel)
    ensures
        load_chats(m, ss.push(x)) == apply_upsert_chat(load_chats(m, ss), x),
    decreases ss.len(),
{
    if ss.len() == 0 {
        assert(ss.push(x)[0] == x);
        assert(ss.push(x).drop_first() =~= Seq::<SummaryModel>::empty());
        assert(load_chats(m, ss.push(x)) == load_chats(
            apply_upsert_chat(m, x),
            ss.push(x).drop_first(),
        ));
        assert(load_chats(apply_upsert_chat(m, x), Seq::<SummaryModel>::empty())
            == apply_upsert_chat(m, x));
    } else {
        assert(ss.push(x)[0] == ss[0]);
        assert(ss.push(x).drop_first() =~= ss.drop_first().push(x));
        lemma_load_chats_push(apply_upsert_chat(m, ss[0]), ss.drop_first(), x);
    }
}

pub proof fn lemma_load_messages_push(m: Seq<EntryModel>, ms: Seq<MessageModel>, x: MessageModel)
    ensures
        load_messages(m, ms.push(x)) == apply_insert_message(load_messages(m, ms), x),
    decreases ms.len(),
{
    if ms.len() == 0 {
        assert(ms.push(x)[0] == x);
        assert(ms.push(x).drop_first() =~= Seq::<MessageModel>::empty());
        assert(load_messages(m, ms.push(x)) == load_messages(
            apply_insert_message(m, x),
            ms.push(x).drop_first(),
        ));
        assert(load_messages(apply_insert_message(m, x), Seq::<MessageModel>::empty())
            == apply_insert_message(m, x));
    } else {
        assert(ms.push(x)[0] == ms[0]);
        assert(ms.push(x).drop_first() =~= ms.drop_first().push(x));
        lemma_load_messages_push(apply_insert_message(m, ms[0]), ms.drop_first(), x);
    }
}

pub proof fn lemma_seq_summary_bytes_push(ss: Seq<SummaryModel>, x: SummaryModel)
    ensures
        seq_summary_bytes(ss.push(x)) == seq_summary_bytes(ss) + spec_summary_size(x),
    decreases ss.len(),
{
    if ss.len() == 0 {
        assert(ss.push(x)[0] == x);
        assert(ss.push(x).drop_first() =~= Seq::<SummaryModel>::empty());
        assert(seq_summary_bytes(ss.push(x)) == spec_summary_size(ss.push(x)[0])
            + seq_summary_bytes(ss.push(x).drop_first()));
    } else {
        assert(ss.push(x)[0] == ss[0]);
        assert(ss.push(x).drop_first() =~= ss.drop_first().push(x));
        lemma_seq_summary_bytes_push(ss.drop_first(), x);
    }
}

pub proof fn lemma_seq_insert_budget_push(ms: Seq<MessageModel>, x: MessageModel)
    ensures
        seq_insert_budget(ms.push(x)) == seq_insert_budget(ms) + spec_message_size(x)
            + CHAT_OVERHEAD_BYTES,
    decreases ms.len(),
{
    if ms.len() == 0 {
        assert(ms.push(x)[0] == x);
        assert(ms.push(x).drop_first() =~= Seq::<MessageModel>::empty());
        assert(seq_insert_budget(ms.push(x)) == spec_message_size(ms.push(x)[0])
            + CHAT_OVERHEAD_BYTES + seq_insert_budget(ms.push(x).drop_first()));
    } else {
        assert(ms.push(x)[0] == ms[0]);
        assert(ms.push(x).drop_first() =~= ms.drop_first().push(x));
        lemma_seq_insert_budget_push(ms.drop_first(), x);
    }
}

/// How an upsert moves the byte total: it never grows it by more than the new
/// summary's size.
pub proof fn lemma_upsert_chat_bytes(m: Seq<EntryModel>, s: SummaryModel)
    ensures
        total_model_bytes(apply_upsert_chat(m, s)) <= total_model_bytes(m) + spec_summary_size(s),
{
    let i = chat_index(m, s.chat_id);
    lemma_chat_index_props(m, s.chat_id);
    if i >= 0 {
        let updated_at = match s.last_message_at {
            Some(t) => t,
            None => 0i64,
        };
        let e2 = EntryModel { summary: s, messages: m[i].messages, updated_at };
        lemma_total_model_bytes_update(m, i, e2);
        lemma_seq_message_bytes_nonneg(m[i].messages);
    } else {
        let updated_at = match s.last_message_at {
            Some(t) => t,
            None => 0i64,
        };
        let e2 = EntryModel { summary: s, messages: Seq::empty(), updated_at };
        lemma_total_model_bytes_push(m, e2);
    }
}

/// How an insert moves the byte total: it never grows it by more than the
/// message's size plus one stub summary.
pub proof fn lemma_insert_message_bytes(m: Seq<EntryModel>, c: MessageModel)
    ensures
        total_model_bytes(apply_insert_message(m, c)) <= total_model_bytes(m)
            + spec_message_size(c) + CHAT_OVERHEAD_BYTES,
{
    let i = chat_index(m, c.chat_id);
    lemma_chat_index_props(m, c.chat_id);
    if i >= 0 {
        let e2 = entry_with_message(m[i], c);
        lemma_total_model_bytes_update(m, i, e2);
        let j = msg_index(m[i].messages, c.message_id);
        lemma_msg_index_props(m[i].messages, c.message_id);
        if j >= 0 {
            lemma_seq_message_bytes_update(m[i].messages, j, c);
        } else {
            lemma_seq_message_bytes_push(m[i].messages, c);
        }
    } else {
        let stub = EntryModel {
            summary: stub_summary(c.chat_id),
            messages: Seq::empty(),
            updated_at: 0,
        };
        let e2 = entry_with_message(stub, c);
        lemma_total_model_bytes_push(m, e2);
        lemma_seq_message_bytes_push(Seq::empty(), c);
        assert(stub.messages.len() == 0);
        assert(msg_index(stub.messages, c.message_id) < 0);
        assert(e2.messages =~= Seq::<MessageModel>::empty().push(c));
        assert(spec_text_len(Seq::<char>::empty()) == 0) by {
            reveal_with_fuel(vstd::utf8::encode_utf8, 2);
        }
    }
}

/// All messages of all entries, in per-chat order.
pub open spec fn all_messages(m: Seq<EntryModel>) -> Seq<MessageModel>
    decreases m.len(),
{
    if m.len() == 0 {
        Seq::empty()
    } else {
        m[0].messages + all_messages(m.drop_first())
    }
}

pub proof fn lemma_all_messages_take_step(m: Seq<EntryModel>, i: int)
    requires
        0 <= i < m.len(),
    ensures
        all_messages(m.take(i + 1)) == all_messages(m.take(i)) + m[i].messages,
    decreases i,
{
    if i == 0 {
        assert(m.take(0) =~= Seq::<EntryModel>::empty());
        assert(m.take(1)[0] == m[0]);
        assert(m.take(1).drop_first() =~= Seq::<EntryModel>::empty());
        assert(all_messages(Seq::<EntryModel>::empty()) =~= Seq::<MessageModel>::empty());
        assert(all_messages(m.take(1)) == m.take(1)[0].messages + all_messages(
            m.take(1).drop_first(),
        ));
        assert(all_messages(m.take(1)) =~= m[0].messages + Seq::<MessageModel>::empty());
        assert(m[0].messages + Seq::<MessageModel>::empty() =~= m[0].messages);
        assert(all_messages(m.take(0)) + m[0].messages =~= m[0].messages);
    } else {
        lemma_all_messages_take_step(m.drop_first(), i - 1);
        assert(m.take(i + 1)[0] == m[0]);
        assert(m.take(i + 1).drop_first() =~= m.drop_first().take(i));
        assert(m.take(i)[0] == m[0]);
        assert(m.take(i).drop_first() =~= m.drop_first().take(i - 1));
        assert(m.drop_first()[i - 1] == m[i]);
        assert(m[0].messages + (all_messages(m.drop_first().take(i - 1)) + m[i].messages)
            =~= (m[0].messages + all_messages(m.drop_first().take(i - 1))) + m[i].messages);
    }
}

/// The full eviction pass, in order: per-chat trims, chat-count eviction,
/// byte-budget eviction.
pub open spec fn enforce_spec(m: Seq<EntryModel>, limits: CacheLimits) -> Seq<EntryModel> {
    evict_bytes(
        evict_count(trim_entries(m, limits.max_messages_per_chat), limits.max_chats),
        limits.max_bytes,
    )
}

/// One whole `apply_event`: the event's mutation followed by eviction.
pub open spec fn apply_spec(m: Seq<EntryModel>, e: DomainEvent, limits: CacheLimits) -> Seq<
    EntryModel,
> {
    enforce_spec(apply_core(m, e), limits)
}

/// Headroom the byte counter needs before applying an event; only new text
/// can grow the accounted total.
pub open spec fn event_headroom(m: Seq<EntryModel>, e: DomainEvent) -> bool {
    match e {
        DomainEvent::MessageNew(msg) => total_model_bytes(m) + spec_message_size(model_of_new(msg))
            + CHAT_OVERHEAD_BYTES <= usize::MAX,
        DomainEvent::MessageEdited(msg) => total_model_bytes(m) + spec_text_len(msg.text@)
            + MESSAGE_OVERHEAD_BYTES <= usize::MAX,
        DomainEvent::ReadReceipt(_) => true,
        DomainEvent::Typing(_) => true,
    }
}

/// The bounded in-memory chat/message model.
#[derive(Debug)]
pub struct ChatCache {
    pub chats: Vec<ChatEntry>,
    pub limits: CacheLimits,
    pub current_bytes: usize,
}

impl ChatCache {
    /// The ghost image of the whole cache.
    pub open spec fn model(&self) -> Seq<EntryModel> {
        self.chats@.map_values(|e: ChatEntry| e.model())
    }

    /// Chat identifiers are unique, every entry accounts its bytes exactly,
    /// and the running counter equals the sum over all entries.
    pub open spec fn wf(&self) -> bool {
        &&& forall|i: int, j: int|
            0 <= i < j < self.model().len() ==> (#[trigger] self.model()[i]).summary.chat_id
                != (#[trigger] self.model()[j]).summary.chat_id
        &&& forall|i: int| 0 <= i < self.chats@.len() ==> (#[trigger] self.chats@[i]).wf()
        &&& self.current_bytes == total_model_bytes(self.model())
    }

    /// All three limit inequalities hold (a limit of 0 disables its rule).
    pub open spec fn limits_ok(&self) -> bool {
        &&& self.limits.max_messages_per_chat > 0 ==> forall|i: int|
            0 <= i < self.model().len() ==> (#[trigger] self.model()[i]).messages.len()
                <= self.limits.max_messages_per_chat
        &&& self.limits.max_chats > 0 ==> self.model().len() <= self.limits.max_chats
        &&& self.limits.max_bytes > 0 ==> total_model_bytes(self.model()) <= self.limits.max_bytes
    }

    /// A fresh, empty cache.
    pub fn new(limits: CacheLimits) -> (r: Self)
        ensures
            r.wf(),
            r.limits_ok(),
            r.model() =~= Seq::<EntryModel>::empty(),
            r.limits == limits,
            r.current_bytes == 0,
    {
        let r = ChatCache { chats: Vec::new(), limits, current_bytes: 0 };
        proof {
            assert(r.model() =~= Seq::<EntryModel>::empty());
        }
        r
    }

    /// Number of chats currently held.
    pub fn chat_count(&self) -> (r: usize)
        ensures
            r == self.chats@.len(),
    {
        self.chats.len()
    }

    /// The exact number of accounted bytes currently held.
    pub fn current_bytes(&self) -> (r: usize)
        ensures
            r == self.current_bytes,
    {
        self.current_bytes
    }

    /// A copy of all summaries, in the cache's storage order.
    pub fn chat_summaries(&self) -> (r: Vec<ChatSummary>)
        ensures
            r@.len() == self.chats@.len(),
            forall|i: int|
                0 <= i < r@.len() ==> r@[i] == (#[trigger] self.chats@[i]).summary,
    {
        let mut out: Vec<ChatSummary> = Vec::new();
        let n = self.chats.len();
        let mut i: usize = 0;
        while i < n
            invariant
                i <= n,
                n == self.chats@.len(),
                out@.len() == i,
                forall|j: int| 0 <= j < i ==> out@[j] == (#[trigger] self.chats@[j]).summary,
            decreases n - i,
        {
            out.push(self.chats[i].summary.clone());
            i = i + 1;
        }
        out
    }

    /// Position of the chat with this identifier, if any.
    fn find_chat(&self, id: ChatId) -> (r: Option<usize>)
        ensures
            match r {
                Some(i) => i as int == chat_index(self.model(), id) && i < self.chats@.len(),
                None => chat_index(self.model(), id) < 0,
            },
    {
        let n = self.chats.len();
        let mut i: usize = 0;
        proof {
            lemma_cache_model_index(*self);
        }
        while i < n
            invariant
                i <= n,
                n == self.chats@.len(),
                n == self.model().len(),
                forall|j: int| 0 <= j < i ==> (#[trigger] self.model()[j]).summary.chat_id != id,
                forall|j: int|
                    0 <= j < n ==> #[trigger] self.model()[j] == self.chats@[j].model(),
            decreases n - i,
        {
            if self.chats[i].summary.chat_id == id {
                proof {
                    lemma_chat_index_of_first(self.model(), id, i as int);
                }
                return Some(i);
            }
            i = i + 1;
        }
        proof {
            lemma_chat_index_absent(self.model(), id);
        }
        None
    }

    /// Position of the message with this identifier within one entry.
    fn find_message(entry: &ChatEntry, id: MessageId) -> (r: Option<usize>)
        ensures
            match r {
                Some(j) => j as int == msg_index(entry.model().messages, id) && j
                    < entry.messages@.len(),
                None => msg_index(entry.model().messages, id) < 0,
            },
    {
        let n = entry.messages.len();
        let mut j: usize = 0;
        proof {
            lemma_entry_model_index(*entry);
        }
        while j < n
            invariant
                j <= n,
                n == entry.messages@.len(),
                n == entry.model().messages.len(),
                forall|k: int|
                    0 <= k < j ==> (#[trigger] entry.model().messages[k]).message_id != id,
                forall|k: int|
                    0 <= k < n ==> #[trigger] entry.model().messages[k]
                        == entry.messages@[k].model(),
            decreases n - j,
        {
            if entry.messages[j].message_id == id {
                proof {
                    lemma_msg_index_of_first(entry.model().messages, id, j as int);
                }
                return Some(j);
            }
            j = j + 1;
        }
        proof {
            lemma_msg_index_absent(entry.model().messages, id);
        }
        None
    }

    /// Replaces the summary of a chat, creating the entry when missing; the
    /// entry's mutation time becomes the summary's last-message time (or 0).
    fn insert_chat(&mut self, summary: ChatSummary)
        requires
            old(self).wf(),
            total_model_bytes(old(self).model()) + spec_summary_size(summary.model())
                <= usize::MAX,
        ensures
            final(self).wf(),
            final(self).model() == apply_upsert_chat(old(self).model(), summary.model()),
            final(self).limits == old(self).limits,
    {
        let ghost m0 = self.model();
        let updated_at = match summary.last_message_at {
            Some(t) => t,
            None => 0i64,
        };
        let sbytes = summary_size_bytes(&summary);
        match self.find_chat(summary.chat_id) {
            Some(i) => {
                proof {
                    lemma_cache_model_index(*self);
                    lemma_chat_index_props(m0, summary.chat_id);
                    lemma_total_ge_entry(m0, i as int);
                    lemma_seq_message_bytes_nonneg(m0[i as int].messages);
                    lemma_total_model_bytes_nonneg(m0.remove(i as int));
                    lemma_total_model_bytes_remove(m0, i as int);
                }
                let mut entry = self.chats.remove(i);
                let old_sbytes = entry.summary_bytes;
                entry.summary = summary;
                entry.summary_bytes = sbytes;
                entry.updated_at = updated_at;
                self.current_bytes = self.current_bytes - old_sbytes + sbytes;
                self.chats.insert(i, entry);
                proof {
                    lemma_cache_model_index(*self);
                    let e2 = self.chats@[i as int].model();
                    assert(e2.messages =~= m0[i as int].messages);
                    assert(self.chats@ =~= old(self).chats@.update(
                        i as int,
                        self.chats@[i as int],
                    ));
                    assert(self.model() =~~= m0.update(i as int, e2));
                    assert(self.model() =~~= apply_upsert_chat(m0, summary.model()));
                    lemma_total_model_bytes_update(m0, i as int, e2);
                }
            },
            None => {
                let entry = ChatEntry {
                    summary,
                    messages: Vec::new(),
                    updated_at,
                    message_bytes: 0,
                    summary_bytes: sbytes,
                };
                self.current_bytes = self.current_bytes + sbytes;
                self.chats.push(entry);
                proof {
                    lemma_cache_model_index(*self);
                    lemma_chat_index_props(m0, summary.chat_id);
                    let e2 = self.chats@[self.chats@.len() - 1].model();
                    assert(e2.messages =~= Seq::<MessageModel>::empty());
                    assert(self.chats@ =~= old(self).chats@.push(
                        self.chats@[self.chats@.len() - 1],
                    ));
                    assert(self.model() =~~= m0.push(e2));
                    assert(self.model() =~~= apply_upsert_chat(m0, summary.model()));
                    lemma_total_model_bytes_push(m0, e2);
                }
            },
        }
    }

    /// Inserts a message: overwrite in place when `(chat_id, message_id)`
    /// exists, else append at the back; the chat summary then points at the
    /// back of the deque. A stub entry is auto-created for an unknown chat.
    #[verifier::rlimit(50)]
    fn insert_message(&mut self, message: CachedMessage)
        requires
            old(self).wf(),
            total_model_bytes(old(self).model()) + spec_message_size(message.model())
                + CHAT_OVERHEAD_BYTES <= usize::MAX,
        ensures
            final(self).wf(),
            final(self).model() == apply_insert_message(old(self).model(), message.model()),
            final(self).limits == old(self).limits,
    {
        let ghost m0 = self.model();
        let ghost c = message.model();
        let new_size = message_size_bytes(&message);
        let found = self.find_chat(message.chat_id);
        let i: usize = match found {
            Some(i) => i,
            None => {
                let summary = ChatSummary {
                    chat_id: message.chat_id,
                    title: String::new(),
                    peer_kind: ChatPeerKind::Unknown,
                    last_message_id: None,
                    last_message_at: None,
                    unread_count: None,
                };
                let sbytes = summary_size_bytes(&summary);
                let entry = ChatEntry {
                    summary,
                    messages: Vec::new(),
                    updated_at: 0,
                    message_bytes: 0,
                    summary_bytes: sbytes,
                };
                proof {
                    lemma_total_model_bytes_nonneg(m0);
                }
                self.current_bytes = self.current_bytes + sbytes;
                self.chats.push(entry);
                proof {
                    lemma_cache_model_index(*self);
                    let e2 = self.chats@[self.chats@.len() - 1].model();
                    assert(e2.summary =~~= stub_summary(message.chat_id));
                    assert(e2.messages =~= Seq::<MessageModel>::empty());
                    assert(self.chats@ =~= old(self).chats@.push(
                        self.chats@[self.chats@.len() - 1],
                    ));
                    assert(self.model() =~~= m0.push(e2));
                    lemma_total_model_bytes_push(m0, e2);
                    lemma_chat_index_props(m0, message.chat_id);
                    assert(forall|j: int|
                        0 <= j < m0.len() ==> #[trigger] self.model()[j] == m0[j]);
                    lemma_chat_index_of_first(self.model(), message.chat_id, m0.len() as int);
                    assert(seq_message_bytes(e2.messages) == 0);
                    assert(self.chats@[self.chats@.len() - 1].wf());
                }
                self.chats.len() - 1
            },
        };
        let ghost mid = self.model();
        let ghost mid_chats = self.chats@;
        proof {
            lemma_cache_model_index(*self);
            if found is Some {
                lemma_chat_index_props(m0, message.chat_id);
            }
            assert(chat_index(mid, message.chat_id) == i as int);
            lemma_total_ge_entry(mid, i as int);
            lemma_total_model_bytes_remove(mid, i as int);
            lemma_total_model_bytes_nonneg(mid.remove(i as int));
        }
        let mut entry = self.chats.remove(i);
        let ghost e0 = entry.model();
        proof {
            lemma_entry_model_index(entry);
        }
        let j_opt = Self::find_message(&entry, message.message_id);
        match j_opt {
            Some(j) => {
                let old_size = message_size_bytes(&entry.messages[j]);
                proof {
                    lemma_seq_message_bytes_ge_elem(e0.messages, j as int);
                    lemma_seq_message_bytes_nonneg(e0.messages);
                    lemma_seq_message_bytes_update(e0.messages, j as int, c);
                }
                entry.messages.set(j, message);
                entry.message_bytes = entry.message_bytes - old_size + new_size;
                self.current_bytes = self.current_bytes - old_size + new_size;
                proof {
                    lemma_entry_model_index(entry);
                    assert(entry.model().messages =~= e0.messages.update(j as int, c));
                }
            },
            None => {
                proof {
                    lemma_seq_message_bytes_push(e0.messages, c);
                    lemma_seq_message_bytes_nonneg(e0.messages);
                }
                entry.messages.push(message);
                entry.message_bytes = entry.message_bytes + new_size;
                self.current_bytes = self.current_bytes + new_size;
                proof {
                    lemma_entry_model_index(entry);
                    assert(entry.model().messages =~= e0.messages.push(c));
                }
            },
        }
        let last_pos = entry.messages.len() - 1;
        let last_id = entry.messages[last_pos].message_id;
        let last_ts = entry.messages[last_pos].timestamp;
        entry.summary.last_message_id = Some(last_id);
        entry.summary.last_message_at = Some(last_ts);
        entry.updated_at = last_ts;
        proof {
            lemma_entry_model_index(entry);
        }
        self.chats.insert(i, entry);
        proof {
            lemma_cache_model_index(*self);
            let e2 = self.chats@[i as int].model();
            assert(e2 =~~= entry_with_message(mid[i as int], c));
            assert(self.model() =~~= mid.update(i as int, e2));
            lemma_total_model_bytes_update(mid, i as int, e2);
            if chat_index(m0, c.chat_id) >= 0 {
                assert(mid =~~= m0);
                assert(self.model() =~~= apply_insert_message(m0, c));
            } else {
                assert(self.model() =~~= apply_insert_message(m0, c));
            }
            assert(self.current_bytes == total_model_bytes(self.model()));
            assert(self.chats@ =~= mid_chats.update(i as int, self.chats@[i as int]));
            lemma_entry_wf_after_insert(mid[i as int], c);
            assert(self.chats@[i as int].wf());
            assert(forall|k: int| 0 <= k < self.chats@.len() ==> (#[trigger] self.chats@[k]).wf());
            assert(forall|a: int, b: int|
                0 <= a < b < self.model().len() ==> (#[trigger] self.model()[a]).summary.chat_id
                    != (#[trigger] self.model()[b]).summary.chat_id);
        }
    }

    /// Updates the text of an existing message and stamps its edit time; a
    /// no-op when the chat or the message is unknown.
    fn update_message(
        &mut self,
        chat_id: ChatId,
        message_id: MessageId,
        text: &String,
        timestamp: i64,
    )
        requires
            old(self).wf(),
            total_model_bytes(old(self).model()) + spec_text_len(text@) + MESSAGE_OVERHEAD_BYTES
                <= usize::MAX,
        ensures
            final(self).wf(),
            final(self).model() == apply_edit_message(
                old(self).model(),
                chat_id,
                message_id,
                text@,
                timestamp,
            ),
            final(self).limits == old(self).limits,
    {
        let ghost m0 = self.model();
        let i = match self.find_chat(chat_id) {
            Some(i) => i,
            None => {
                return ;
            },
        };
        proof {
            lemma_cache_model_index(*self);
            lemma_total_ge_entry(m0, i as int);
            lemma_total_model_bytes_remove(m0, i as int);
            lemma_total_model_bytes_nonneg(m0.remove(i as int));
        }
        let mut entry = self.chats.remove(i);
        let ghost e0 = entry.model();
        proof {
            lemma_entry_model_index(entry);
        }
        let j = match Self::find_message(&entry, message_id) {
            Some(j) => j,
            None => {
                self.chats.insert(i, entry);
                proof {
                    lemma_cache_model_index(*self);
                    assert(self.model() =~~= m0);
                }
                return ;
            },
        };
        let old_size = message_size_bytes(&entry.messages[j]);
        let mut updated = entry.messages[j].clone();
        updated.text = text.clone();
        updated.edit_timestamp = Some(timestamp);
        let new_size = message_size_bytes(&updated);
        proof {
            lemma_seq_message_bytes_ge_elem(e0.messages, j as int);
            lemma_seq_message_bytes_nonneg(e0.messages);
            lemma_seq_message_bytes_update(e0.messages, j as int, updated.model());
        }
        entry.messages.set(j, updated);
        entry.message_bytes = entry.message_bytes - old_size + new_size;
        self.current_bytes = self.current_bytes - old_size + new_size;
        entry.updated_at = timestamp;
        proof {
            lemma_entry_model_index(entry);
        }
        self.chats.insert(i, entry);
        proof {
            lemma_cache_model_index(*self);
            let e2 = self.chats@[i as int].model();
            assert(e2.messages =~= e0.messages.update(j as int, e2.messages[j as int]));
            assert(self.model() =~~= m0.update(i as int, e2));
            lemma_total_model_bytes_update(m0, i as int, e2);
            assert(self.model() =~~= apply_edit_message(m0, chat_id, message_id, text@, timestamp));
        }
    }

    /// Zeroes the unread count of a chat and stamps the receipt time; a
    /// no-op when the chat is unknown.
    fn mark_read(&mut self, chat_id: ChatId, timestamp: i64)
        requires
            old(self).wf(),
        ensures
            final(self).wf(),
            final(self).model() == apply_read_receipt(old(self).model(), chat_id, timestamp),
            final(self).limits == old(self).limits,
    {
        let ghost m0 = self.model();
        let i = match self.find_chat(chat_id) {
            Some(i) => i,
            None => {
                return ;
            },
        };
        proof {
            lemma_cache_model_index(*self);
            lemma_total_ge_entry(m0, i as int);
        }
        let mut entry = self.chats.remove(i);
        entry.summary.unread_count = Some(0);
        entry.updated_at = timestamp;
        self.chats.insert(i, entry);
        proof {
            lemma_cache_model_index(*self);
            let e2 = self.chats@[i as int].model();
            assert(e2.messages =~= m0[i as int].messages);
            assert(self.model() =~~= m0.update(i as int, e2));
            lemma_total_model_bytes_update(m0, i as int, e2);
            assert(self.model() =~~= apply_read_receipt(m0, chat_id, timestamp));
        }
    }

    /// Position of the least recently updated chat (ties keep the earliest).
    fn least_recent(&self) -> (r: usize)
        requires
            self.chats@.len() > 0,
        ensures
            r as int == least_recent_index(self.model()),
            r < self.chats@.len(),
    {
        let n = self.chats.len();
        let mut best: usize = 0;
        let mut i: usize = 1;
        proof {
            lemma_cache_model_index(*self);
        }
        while i < n
            invariant
                1 <= i <= n,
                best < i,
                n == self.chats@.len(),
                n == self.model().len(),
                forall|j: int|
                    0 <= j < i ==> self.model()[best as int].updated_at
                        <= (#[trigger] self.model()[j]).updated_at,
                forall|j: int|
                    0 <= j < best ==> (#[trigger] self.model()[j]).updated_at
                        > self.model()[best as int].updated_at,
                forall|j: int|
                    0 <= j < n ==> #[trigger] self.model()[j] == self.chats@[j].model(),
            decreases n - i,
        {
            if self.chats[i].updated_at < self.chats[best].updated_at {
                best = i;
            }
            i = i + 1;
        }
        proof {
            lemma_least_recent_of_first(self.model(), best as int);
        }
        best
    }

    /// Runs the three eviction rules in order and reports what was removed.
    fn enforce_limits(&mut self) -> (stats: EvictionStats)
        requires
            old(self).wf(),
        ensures
            final(self).wf(),
            final(self).limits_ok(),
            final(self).model() == enforce_spec(old(self).model(), old(self).limits),
            final(self).limits == old(self).limits,
            stats.chats_evicted == old(self).model().len() - final(self).model().len(),
            stats.messages_evicted == total_message_count(old(self).model())
                - total_message_count(final(self).model()),
    {
        let ghost m0 = self.model();
        let ghost limits = self.limits;
        let total_chats = self.chats.len();
        proof {
            assert(m0.len() == total_chats);
            lemma_count_bounded_by_bytes(m0);
            lemma_total_message_count_nonneg(m0);
            lemma_total_model_bytes_nonneg(m0);
        }
        let mut stats = EvictionStats { chats_evicted: 0, messages_evicted: 0 };
        let max_messages = self.limits.max_messages_per_chat;
        if max_messages > 0 {
            let n = self.chats.len();
            let mut i: usize = 0;
            while i < n
                invariant
                    i <= n,
                    self.chats@.len() == n,
                    self.model().len() == n,
                    m0.len() == n,
                    self.wf(),
                    self.limits == limits,
                    max_messages == limits.max_messages_per_chat,
                    max_messages > 0,
                    forall|k: int|
                        0 <= k < i ==> #[trigger] self.model()[k] == trim_entry(
                            m0[k],
                            max_messages,
                        ),
                    forall|k: int| i <= k < n ==> #[trigger] self.model()[k] == m0[k],
                    stats.chats_evicted == 0,
                    stats.messages_evicted == total_message_count(m0) - total_message_count(
                        self.model(),
                    ),
                    total_message_count(self.model()) >= 0,
                    64 * total_message_count(m0) <= usize::MAX,
                decreases n - i,
            {
                let ghost mcur = self.model();
                let ghost mrest = mcur.remove(i as int);
                proof {
                    lemma_cache_model_index(*self);
                    lemma_total_ge_entry(mcur, i as int);
                    lemma_total_model_bytes_remove(mcur, i as int);
                    lemma_total_model_bytes_nonneg(mrest);
                    lemma_total_message_count_remove(mcur, i as int);
                    lemma_total_message_count_nonneg(mrest);
                    lemma_seq_message_bytes_nonneg(mcur[i as int].messages);
                }
                let mut entry = self.chats.remove(i);
                let ghost chats_rest = self.chats@;
                let ghost e0 = entry.model();
                let ghost evicted_before = stats.messages_evicted;
                proof {
                    lemma_entry_model_index(entry);
                    assert(e0.messages.skip(0) =~= e0.messages);
                    lemma_entry_count_le_total_aux(mcur, i as int);
                }
                while entry.messages.len() > max_messages
                    invariant
                        stats.chats_evicted == 0,
                        self.chats@ == chats_rest,
                        self.chats@.len() == n - 1,
                        self.limits == limits,
                        self.model() == mrest,
                        i < n,
                        max_messages > 0,
                        entry.messages@.len() <= e0.messages.len(),
                        entry.model().messages =~= e0.messages.skip(
                            e0.messages.len() - entry.messages@.len(),
                        ),
                        entry.summary.model() == e0.summary,
                        entry.updated_at == e0.updated_at,
                        entry.summary_bytes == spec_summary_size(e0.summary),
                        entry.message_bytes == seq_message_bytes(entry.model().messages),
                        entry_model_wf(e0),
                        self.current_bytes == total_model_bytes(mrest) + entry_model_bytes(
                            entry.model(),
                        ),
                        total_model_bytes(mrest) >= 0,
                        stats.messages_evicted == evicted_before + e0.messages.len()
                            - entry.messages@.len(),
                        evicted_before + e0.messages.len() <= total_message_count(m0),
                        64 * total_message_count(m0) <= usize::MAX,
                        e0.messages.len() > max_messages ==> entry.messages@.len()
                            >= max_messages,
                        e0.messages.len() <= max_messages ==> entry.messages@.len()
                            == e0.messages.len(),
                    decreases entry.messages@.len(),
                {
                    let ghost msgs_before = entry.model().messages;
                    let removed = entry.messages.remove(0);
                    let size = message_size_bytes(&removed);
                    proof {
                        lemma_entry_model_index(entry);
                        assert(entry.model().messages =~= msgs_before.drop_first());
                        assert(removed.model() == msgs_before[0]);
                        assert(seq_message_bytes(msgs_before) == spec_message_size(msgs_before[0])
                            + seq_message_bytes(msgs_before.drop_first()));
                        lemma_seq_message_bytes_nonneg(msgs_before.drop_first());
                        let d = e0.messages.len() - msgs_before.len();
                        assert(msgs_before.drop_first() =~= e0.messages.skip(d + 1));
                    }
                    entry.message_bytes = entry.message_bytes - size;
                    self.current_bytes = self.current_bytes - size;
                    stats.messages_evicted = stats.messages_evicted + 1;
                }
                let ghost etrim = entry.model();
                proof {
                    assert(etrim =~~= trim_entry(mcur[i as int], max_messages));
                    assert(entry.wf()) by {
                        let d = e0.messages.len() - etrim.messages.len();
                        assert(forall|a: int|
                            0 <= a < etrim.messages.len() ==> #[trigger] etrim.messages[a]
                                == e0.messages[a + d]);
                    }
                }
                self.chats.insert(i, entry);
                proof {
                    lemma_cache_model_index(*self);
                    assert(self.model() =~~= mcur.update(i as int, etrim));
                    lemma_total_model_bytes_update(mcur, i as int, etrim);
                    lemma_total_message_count_update(mcur, i as int, etrim);
                }
                i = i + 1;
            }
            proof {
                assert(self.model() =~~= trim_entries(m0, limits.max_messages_per_chat));
            }
        } else {
            proof {
                assert(self.model() =~~= trim_entries(m0, limits.max_messages_per_chat));
            }
        }
        let ghost m1 = trim_entries(m0, limits.max_messages_per_chat);
        proof {
            if limits.max_messages_per_chat > 0 {
                assert forall|k: int|
                    0 <= k < m1.len() implies (#[trigger] m1[k]).messages.len()
                    <= limits.max_messages_per_chat by {
                    assert(m1[k] == trim_entry(m0[k], limits.max_messages_per_chat));
                }
            }
        }
        let max_chats = self.limits.max_chats;
        if max_chats > 0 {
            while self.chats.len() > max_chats
                invariant
                    self.wf(),
                    self.limits == limits,
                    max_chats == limits.max_chats,
                    max_chats > 0,
                    evict_count(self.model(), max_chats) == evict_count(m1, max_chats),
                    stats.chats_evicted == m1.len() - self.model().len(),
                    self.model().len() <= m1.len(),
                    m1.len() == m0.len(),
                    m0.len() <= usize::MAX,
                    stats.messages_evicted == total_message_count(m0) - total_message_count(
                        self.model(),
                    ),
                    total_message_count(self.model()) >= 0,
                    64 * total_message_count(m0) <= usize::MAX,
                    limits.max_messages_per_chat > 0 ==> forall|k: int|
                        0 <= k < self.model().len() ==> (#[trigger] self.model()[k]).messages.len()
                            <= limits.max_messages_per_chat,
                decreases self.chats@.len(),
            {
                let ghost mcur = self.model();
                let li = self.least_recent();
                proof {
                    lemma_cache_model_index(*self);
                    lemma_total_ge_entry(mcur, li as int);
                    lemma_seq_message_bytes_nonneg(mcur[li as int].messages);
                    lemma_total_model_bytes_remove(mcur, li as int);
                    lemma_total_model_bytes_nonneg(mcur.remove(li as int));
                    lemma_total_message_count_remove(mcur, li as int);
                    lemma_total_message_count_nonneg(mcur.remove(li as int));
                    assert(self.chats@[li as int].wf());
                }
                let entry = self.chats.remove(li);
                self.current_bytes = self.current_bytes - entry.message_bytes;
                self.current_bytes = self.current_bytes - entry.summary_bytes;
                stats.chats_evicted = stats.chats_evicted + 1;
                stats.messages_evicted = stats.messages_evicted + entry.messages.len();
                proof {
                    lemma_cache_model_index(*self);
                    assert(self.model() =~~= mcur.remove(li as int));
                    assert(evict_count(mcur, max_chats) == evict_count(
                        mcur.remove(least_recent_index(mcur)),
                        max_chats,
                    ));
                }
            }
            proof {
                assert(evict_count(self.model(), max_chats) == self.model());
            }
        } else {
            proof {
                assert(evict_count(m1, max_chats) == m1);
            }
        }
        let ghost m2 = evict_count(m1, limits.max_chats);
        let max_bytes = self.limits.max_bytes;
        if max_bytes > 0 {
            while self.current_bytes > max_bytes
                invariant
                    self.wf(),
                    self.limits == limits,
                    max_bytes == limits.max_bytes,
                    max_bytes > 0,
                    evict_bytes(self.model(), max_bytes) == evict_bytes(m2, max_bytes),
                    stats.chats_evicted == m0.len() - self.model().len(),
                    self.model().len() <= m0.len(),
                    m0.len() <= usize::MAX,
                    stats.messages_evicted == total_message_count(m0) - total_message_count(
                        self.model(),
                    ),
                    total_message_count(self.model()) >= 0,
                    64 * total_message_count(m0) <= usize::MAX,
                    limits.max_messages_per_chat > 0 ==> forall|k: int|
                        0 <= k < self.model().len() ==> (#[trigger] self.model()[k]).messages.len()
                            <= limits.max_messages_per_chat,
                    limits.max_chats > 0 ==> self.model().len() <= limits.max_chats,
                decreases self.chats@.len(),
            {
                proof {
                    if self.chats@.len() == 0 {
                        assert(self.model() =~= Seq::<EntryModel>::empty());
                        assert(total_model_bytes(self.model()) == 0);
                    }
                }
                let ghost mcur = self.model();
                let li = self.least_recent();
                proof {
                    lemma_cache_model_index(*self);
                    lemma_total_ge_entry(mcur, li as int);
                    lemma_seq_message_bytes_nonneg(mcur[li as int].messages);
                    lemma_total_model_bytes_remove(mcur, li as int);
                    lemma_total_model_bytes_nonneg(mcur.remove(li as int));
                    lemma_total_message_count_remove(mcur, li as int);
                    lemma_total_message_count_nonneg(mcur.remove(li as int));
                    assert(self.chats@[li as int].wf());
                }
                let entry = self.chats.remove(li);
                self.current_bytes = self.current_bytes - entry.message_bytes;
                self.current_bytes = self.current_bytes - entry.summary_bytes;
                stats.chats_evicted = stats.chats_evicted + 1;
                stats.messages_evicted = stats.messages_evicted + entry.messages.len();
                proof {
                    lemma_cache_model_index(*self);
                    assert(self.model() =~~= mcur.remove(li as int));
                    assert(evict_bytes(mcur, max_bytes) == evict_bytes(
                        mcur.remove(least_recent_index(mcur)),
                        max_bytes,
                    ));
                }
            }
            proof {
                assert(evict_bytes(self.model(), max_bytes) == self.model());
            }
        } else {
            proof {
                assert(evict_bytes(m2, max_bytes) == m2);
            }
        }
        proof {
            assert(self.model() == enforce_spec(m0, limits));
        }
        stats
    }

    /// Applies one domain event and then enforces the limits; returns what
    /// eviction removed.
    pub fn apply_event(&mut self, event: &DomainEvent) -> (stats: EvictionStats)
        requires
            old(self).wf(),
            event_headroom(old(self).model(), *event),
        ensures
            final(self).wf(),
            final(self).limits_ok(),
            final(self).model() == apply_spec(old(self).model(), *event, old(self).limits),
            final(self).limits == old(self).limits,
            stats.chats_evicted == apply_core(old(self).model(), *event).len()
                - final(self).model().len(),
            stats.messages_evicted == total_message_count(apply_core(old(self).model(), *event))
                - total_message_count(final(self).model()),
    {
        let ghost m0 = self.model();
        match event {
            DomainEvent::MessageNew(msg) => {
                let cached = CachedMessage {
                    chat_id: msg.chat_id,
                    message_id: msg.message_id,
                    author_id: msg.author_id,
                    timestamp: msg.timestamp,
                    edit_timestamp: None,
                    text: msg.text.clone(),
                    outgoing: msg.outgoing,
                };
                proof {
                    assert(cached.model() =~~= model_of_new(*msg));
                }
                self.insert_message(cached);
            },
            DomainEvent::MessageEdited(msg) => {
                self.update_message(msg.chat_id, msg.message_id, &msg.text, msg.timestamp);
            },
            DomainEvent::ReadReceipt(receipt) => {
                self.mark_read(receipt.chat_id, receipt.timestamp);
            },
            DomainEvent::Typing(_) => {},
        }
        proof {
            assert(self.model() == apply_core(m0, *event));
        }
        self.enforce_limits()
    }

    /// Replaces or creates a chat summary and then enforces the limits.
    pub fn upsert_chat(&mut self, summary: ChatSummary) -> (stats: EvictionStats)
        requires
            old(self).wf(),
            total_model_bytes(old(self).model()) + spec_summary_size(summary.model())
                <= usize::MAX,
        ensures
            final(self).wf(),
            final(self).limits_ok(),
            final(self).model() == enforce_spec(
                apply_upsert_chat(old(self).model(), summary.model()),
                old(self).limits,
            ),
            final(self).limits == old(self).limits,
            stats.chats_evicted == apply_upsert_chat(old(self).model(), summary.model()).len()
                - final(self).model().len(),
            stats.messages_evicted == total_message_count(
                apply_upsert_chat(old(self).model(), summary.model()),
            ) - total_message_count(final(self).model()),
    {
        self.insert_chat(summary);
        self.enforce_limits()
    }

    /// A copy of the last `limit` messages of a chat (or all of them), in
    /// arrival order; empty for an unknown chat.
    pub fn messages_for_chat(&self, chat_id: ChatId, limit: Option<usize>) -> (r: Vec<
        CachedMessage,
    >)
        ensures
            ({
                let ci = chat_index(self.model(), chat_id);
                &&& ci < 0 ==> r@.len() == 0
                &&& ci >= 0 ==> {
                    let msgs = self.model()[ci].messages;
                    let k: int = match limit {
                        Some(l) => if l as int <= msgs.len() {
                            l as int
                        } else {
                            msgs.len() as int
                        },
                        None => msgs.len() as int,
                    };
                    r@.map_values(|m: CachedMessage| m.model()) == msgs.skip(msgs.len() - k)
                }
            }),
    {
        let i = match self.find_chat(chat_id) {
            Some(i) => i,
            None => {
                let empty: Vec<CachedMessage> = Vec::new();
                return empty;
            },
        };
        proof {
            lemma_cache_model_index(*self);
            lemma_entry_model_index(self.chats@[i as int]);
        }
        let len = self.chats[i].messages.len();
        let k = match limit {
            Some(l) => if l <= len {
                l
            } else {
                len
            },
            None => len,
        };
        let start = len - k;
        let ghost msgs = self.model()[i as int].messages;
        let mut out: Vec<CachedMessage> = Vec::new();
        let mut j = start;
        while j < len
            invariant
                start <= j <= len,
                i < self.chats@.len(),
                len == self.chats@[i as int].messages@.len(),
                msgs == self.model()[i as int].messages,
                msgs.len() == len,
                out@.len() == j - start,
                forall|t: int|
                    0 <= t < j - start ==> (#[trigger] out@[t]).model() == msgs[start + t],
                forall|t: int|
                    0 <= t < len ==> #[trigger] msgs[t] == self.chats@[i as int].messages@[t].model(),
            decreases len - j,
        {
            out.push(self.chats[i].messages[j].clone());
            j = j + 1;
        }
        proof {
            assert(out@.map_values(|m: CachedMessage| m.model()) =~= msgs.skip(start as int));
        }
        out
    }

    /// An ordered copy of everything the cache holds: the summaries in
    /// storage order, then each chat's messages in arrival order.
    pub fn snapshot(&self) -> (r: CacheSnapshot)
        ensures
            r.chats@.len() == self.chats@.len(),
            forall|i: int|
                0 <= i < r.chats@.len() ==> r.chats@[i] == (#[trigger] self.chats@[i]).summary,
            r.messages@.map_values(|m: CachedMessage| m.model()) == all_messages(self.model()),
    {
        let mut chats: Vec<ChatSummary> = Vec::new();
        let mut messages: Vec<CachedMessage> = Vec::new();
        let n = self.chats.len();
        let mut i: usize = 0;
        proof {
            lemma_cache_model_index(*self);
            assert(self.model().take(0) =~= Seq::<EntryModel>::empty());
            assert(messages@.map_values(|m: CachedMessage| m.model()) =~= all_messages(
                self.model().take(0),
            ));
        }
        while i < n
            invariant
                i <= n,
                n == self.chats@.len(),
                n == self.model().len(),
                chats@.len() == i,
                forall|k: int| 0 <= k < i ==> chats@[k] == (#[trigger] self.chats@[k]).summary,
                messages@.map_values(|m: CachedMessage| m.model()) == all_messages(
                    self.model().take(i as int),
                ),
                forall|k: int|
                    0 <= k < n ==> #[trigger] self.model()[k] == self.chats@[k].model(),
            decreases n - i,
        {
            chats.push(self.chats[i].summary.clone());
            let ghost msgs_before = messages@;
            let m = self.chats[i].messages.len();
            let mut j: usize = 0;
            proof {
                lemma_entry_model_index(self.chats@[i as int]);
            }
            while j < m
                invariant
                    j <= m,
                    i < n,
                    n == self.chats@.len(),
                    m == self.chats@[i as int].messages@.len(),
                    messages@.len() == msgs_before.len() + j,
                    forall|t: int| 0 <= t < msgs_before.len() ==> messages@[t] == msgs_before[t],
                    forall|t: int|
                        0 <= t < j ==> messages@[msgs_before.len() + t] == (
                        #[trigger] self.chats@[i as int].messages@[t]),
                decreases m - j,
            {
                messages.push(self.chats[i].messages[j].clone());
                j = j + 1;
            }
            proof {
                lemma_entry_model_index(self.chats@[i as int]);
                lemma_all_messages_take_step(self.model(), i as int);
                assert(messages@.map_values(|x: CachedMessage| x.model()) =~= msgs_before
                    .map_values(|x: CachedMessage| x.model()) + self.model()[i as int].messages);
            }
            i = i + 1;
        }
        proof {
            assert(self.model().take(n as int) =~= self.model());
        }
        CacheSnapshot { chats, messages }
    }

    /// Rebuilds a cache from a snapshot: replay the summaries, then the
    /// messages, then run one eviction pass.
    pub fn from_snapshot(snapshot: CacheSnapshot, limits: CacheLimits) -> (r: Self)
        requires
            snapshot_headroom(snapshot),
        ensures
            r.wf(),
            r.limits_ok(),
            r.limits == limits,
            r.model() == enforce_spec(
                load_messages(
                    load_chats(Seq::empty(), snapshot_chat_models(snapshot)),
                    snapshot_message_models(snapshot),
                ),
                limits,
            ),
    {
        let ghost ss = snapshot_chat_models(snapshot);
        let ghost ms = snapshot_message_models(snapshot);
        let mut cache = ChatCache::new(limits);
        proof {
            lemma_seq_summary_bytes_nonneg(ss);
            lemma_seq_insert_budget_nonneg(ms);
            assert(ss.take(0) =~= Seq::<SummaryModel>::empty());
            assert(ss.skip(0) =~= ss);
            assert(load_chats(Seq::<EntryModel>::empty(), ss.take(0)) == Seq::<
                EntryModel,
            >::empty());
        }
        let nchats = snapshot.chats.len();
        let mut i: usize = 0;
        while i < nchats
            invariant
                i <= nchats,
                nchats == snapshot.chats@.len(),
                ss == snapshot_chat_models(snapshot),
                ms == snapshot_message_models(snapshot),
                ss.len() == nchats,
                cache.wf(),
                cache.limits == limits,
                cache.model() == load_chats(Seq::<EntryModel>::empty(), ss.take(i as int)),
                total_model_bytes(cache.model()) + seq_summary_bytes(ss.skip(i as int))
                    + seq_insert_budget(ms) <= usize::MAX,
            decreases nchats - i,
        {
            let ghost mprev = cache.model();
            proof {
                assert(ss.skip(i as int)[0] == ss[i as int]);
                assert(ss.skip(i as int).drop_first() =~= ss.skip(i + 1));
                lemma_seq_summary_bytes_nonneg(ss.skip(i + 1));
                lemma_seq_insert_budget_nonneg(ms);
                assert(snapshot.chats@[i as int].model() == ss[i as int]);
            }
            let summary = snapshot.chats[i].clone();
            cache.insert_chat(summary);
            proof {
                lemma_load_chats_push(Seq::<EntryModel>::empty(), ss.take(i as int), ss[i as int]);
                assert(ss.take(i + 1) =~= ss.take(i as int).push(ss[i as int]));
                lemma_upsert_chat_bytes(mprev, ss[i as int]);
            }
            i = i + 1;
        }
        proof {
            assert(ss.take(nchats as int) =~= ss);
            assert(ms.take(0) =~= Seq::<MessageModel>::empty());
            assert(ms.skip(0) =~= ms);
            let base = load_chats(Seq::<EntryModel>::empty(), ss);
            assert(load_messages(base, ms.take(0)) == base);
            lemma_seq_summary_bytes_nonneg(ss.skip(nchats as int));
        }
        let ghost base = load_chats(Seq::<EntryModel>::empty(), ss);
        let nmsgs = snapshot.messages.len();
        let mut k: usize = 0;
        while k < nmsgs
            invariant
                k <= nmsgs,
                nmsgs == snapshot.messages@.len(),
                ss == snapshot_chat_models(snapshot),
                ms == snapshot_message_models(snapshot),
                ms.len() == nmsgs,
                base == load_chats(Seq::<EntryModel>::empty(), ss),
                cache.wf(),
                cache.limits == limits,
                cache.model() == load_messages(base, ms.take(k as int)),
                total_model_bytes(cache.model()) + seq_insert_budget(ms.skip(k as int))
                    <= usize::MAX,
            decreases nmsgs - k,
        {
            let ghost mprev = cache.model();
            proof {
                assert(ms.skip(k as int)[0] == ms[k as int]);
                assert(ms.skip(k as int).drop_first() =~= ms.skip(k + 1));
                lemma_seq_insert_budget_nonneg(ms.skip(k + 1));
                assert(snapshot.messages@[k as int].model() == ms[k as int]);
            }
            let message = snapshot.messages[k].clone();
            cache.insert_message(message);
            proof {
                lemma_load_messages_push(base, ms.take(k as int), ms[k as int]);
                assert(ms.take(k + 1) =~= ms.take(k as int).push(ms[k as int]));
                lemma_insert_message_bytes(mprev, ms[k as int]);
            }
            k = k + 1;
        }
        proof {
            assert(ms.take(nmsgs as int) =~= ms);
        }
        let _ = cache.enforce_limits();
        cache
    }
}

/// The ghost images of a snapshot's summaries.
pub open spec fn snapshot_chat_models(s: CacheSnapshot) -> Seq<SummaryModel> {
    s.chats@.map_values(|c: ChatSummary| c.model())
}

/// The ghost images of a snapshot's messages.
pub open spec fn snapshot_message_models(s: CacheSnapshot) -> Seq<MessageModel> {
    s.messages@.map_values(|m: CachedMessage| m.model())
}

/// Byte headroom needed to rebuild a cache from a snapshot.
pub open spec fn snapshot_headroom(s: CacheSnapshot) -> bool {
    seq_summary_bytes(snapshot_chat_models(s)) + seq_insert_budget(snapshot_message_models(s))
        <= usize::MAX
}

/// Accounted size of one message, as the executable code computes it.
pub fn message_size_bytes(message: &CachedMessage) -> (r: usize)
    ensures
        r == spec_message_size(message.model()),
{
    message.text.as_str().len().saturating_add(MESSAGE_OVERHEAD_BYTES)
}

/// Accounted size of one summary, as the executable code computes it.
pub fn summary_size_bytes(summary: &ChatSummary) -> (r: usize)
    ensures
        r == spec_summary_size(summary.model()),
{
    summary.title.as_str().len().saturating_add(CHAT_OVERHEAD_BYTES)
}

} // verus!

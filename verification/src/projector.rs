//! Projects the cache into view-model items: chats sorted by recency with a
//! stable title tie-break, messages sorted by timestamp, author labels, and
//! `HH:MM` clock rendering in UTC.

use vstd::prelude::*;

use crate::cache::{CachedMessage, ChatSummary};
use crate::events::ChatId;
use crate::text::{append_str, i64_to_string, spec_digit, spec_i64_dec, trim, trimmed_of};
use crate::view::{ChatListItem, MessageItem, UiState};

verus! {

/// Lexicographic order on character sequences, by scalar value.
pub open spec fn spec_lex_le(a: Seq<char>, b: Seq<char>) -> bool
    decreases a.len(),
{
    if a.len() == 0 {
        true
    } else if b.len() == 0 {
        false
    } else if a[0] != b[0] {
        a[0] < b[0]
    } else {
        spec_lex_le(a.drop_first(), b.drop_first())
    }
}

/// Chat-list order: most recent last message first (a missing time counts as
/// 0), titles ascending as the tie-break.
pub open spec fn spec_chat_le(a: ChatSummary, b: ChatSummary) -> bool {
    let at = match a.last_message_at {
        Some(t) => t,
        None => 0i64,
    };
    let bt = match b.last_message_at {
        Some(t) => t,
        None => 0i64,
    };
    at > bt || (at == bt && spec_lex_le(a.title@, b.title@))
}

/// `spec_chat_le` is total.
pub proof fn lemma_chat_le_total(a: ChatSummary, b: ChatSummary)
    ensures
        spec_chat_le(a, b) || spec_chat_le(b, a),
{
    lemma_lex_le_total(a.title@, b.title@);
}

/// `spec_chat_le` is transitive.
pub proof fn lemma_chat_le_trans(a: ChatSummary, b: ChatSummary, c: ChatSummary)
    requires
        spec_chat_le(a, b),
        spec_chat_le(b, c),
    ensures
        spec_chat_le(a, c),
{
    if spec_lex_le(a.title@, b.title@) && spec_lex_le(b.title@, c.title@) {
        lemma_lex_le_trans(a.title@, b.title@, c.title@);
    }
}

proof fn lemma_lex_le_trans(a: Seq<char>, b: Seq<char>, c: Seq<char>)
    requires
        spec_lex_le(a, b),
        spec_lex_le(b, c),
    ensures
        spec_lex_le(a, c),
    decreases a.len(),
{
    if a.len() > 0 && b.len() > 0 && c.len() > 0 && a[0] == b[0] && b[0] == c[0] {
        lemma_lex_le_trans(a.drop_first(), b.drop_first(), c.drop_first());
    }
}

proof fn lemma_lex_le_total(a: Seq<char>, b: Seq<char>)
    ensures
        spec_lex_le(a, b) || spec_lex_le(b, a),
    decreases a.len(),
{
    if a.len() > 0 && b.len() > 0 && a[0] == b[0] {
        lemma_lex_le_total(a.drop_first(), b.drop_first());
    }
}

/// Lexicographic comparison of two character vectors.
fn lex_le(a: &Vec<char>, b: &Vec<char>) -> (r: bool)
    ensures
        r == spec_lex_le(a@, b@),
{
    let an = a.len();
    let bn = b.len();
    let mut i: usize = 0;
    proof {
        assert(a@.skip(0) =~= a@);
        assert(b@.skip(0) =~= b@);
    }
    while i < an && i < bn
        invariant
            i <= an,
            i <= bn,
            an == a@.len(),
            bn == b@.len(),
            spec_lex_le(a@, b@) == spec_lex_le(a@.skip(i as int), b@.skip(i as int)),
        decreases an - i,
    {
        let ca = a[i];
        let cb = b[i];
        if ca != cb {
            proof {
                assert(a@.skip(i as int)[0] == ca);
                assert(b@.skip(i as int)[0] == cb);
            }
            return ca < cb;
        }
        proof {
            assert(a@.skip(i as int)[0] == cb);
            assert(b@.skip(i as int)[0] == cb);
            assert(a@.skip(i as int).drop_first() =~= a@.skip(i + 1));
            assert(b@.skip(i as int).drop_first() =~= b@.skip(i + 1));
        }
        i = i + 1;
    }
    proof {
        if i >= an {
            assert(a@.skip(i as int).len() == 0);
        } else {
            assert(b@.skip(i as int).len() == 0);
            assert(a@.skip(i as int).len() > 0);
        }
    }
    an <= bn
}

/// Whether one summary sorts no later than another.
fn chat_le(a: &ChatSummary, b: &ChatSummary) -> (r: bool)
    ensures
        r == spec_chat_le(*a, *b),
{
    let at = match a.last_message_at {
        Some(t) => t,
        None => 0i64,
    };
    let bt = match b.last_message_at {
        Some(t) => t,
        None => 0i64,
    };
    if at > bt {
        true
    } else if at < bt {
        false
    } else {
        let ta = crate::text::str_chars(a.title.as_str());
        let tb = crate::text::str_chars(b.title.as_str());
        lex_le(&ta, &tb)
    }
}

/// Sorts summaries by recency then title, by insertion; the result is a
/// permutation of the input.
#[verifier::rlimit(60)]
pub fn sort_summaries(input: &Vec<ChatSummary>) -> (r: Vec<ChatSummary>)
    ensures
        r@.to_multiset() == input@.to_multiset(),
        forall|a: int, b: int| 0 <= a < b < r@.len() ==> spec_chat_le(r@[a], r@[b]),
{
    let mut out: Vec<ChatSummary> = Vec::new();
    let n = input.len();
    let mut i: usize = 0;
    proof {
        assert(input@.take(0) =~= Seq::<ChatSummary>::empty());
        assert(out@.to_multiset() =~= input@.take(0).to_multiset()) by {
            assert(out@ =~= input@.take(0));
        }
    }
    while i < n
        invariant
            i <= n,
            n == input@.len(),
            out@.len() == i,
            out@.to_multiset() == input@.take(i as int).to_multiset(),
            forall|a: int, b: int| 0 <= a < b < out@.len() ==> spec_chat_le(out@[a], out@[b]),
        decreases n - i,
    {
        let item = input[i].clone();
        let m = out.len();
        let mut pos: usize = 0;
        while pos < m && chat_le_at(&out, pos, &item)
            invariant
                pos <= m,
                m == out@.len(),
                forall|j: int| 0 <= j < pos ==> spec_chat_le(out@[j], item),
            decreases m - pos,
        {
            pos = pos + 1;
        }
        let ghost out0 = out@;
        let ghost x = item;
        proof {
            if pos < m {
                lemma_chat_le_total(out0[pos as int], item);
            }
        }
        out.insert(pos, item);
        proof {
            vstd::seq_lib::to_multiset_insert(out0, pos as int, x);
            vstd::seq_lib::to_multiset_build(input@.take(i as int), input@[i as int]);
            assert(input@.take(i + 1) =~= input@.take(i as int).push(input@[i as int]));
            assert(x == input@[i as int]);
            out0.insert_ensures(pos as int, x);
            assert forall|a: int, b: int|
                0 <= a < b < out@.len() implies spec_chat_le(out@[a], out@[b]) by {
                if a < pos && b == pos {
                } else if a == pos && b > pos {
                    lemma_chat_le_total(out0[pos as int], x);
                    if b - 1 > pos {
                        lemma_chat_le_trans(x, out0[pos as int], out0[b - 1]);
                    }
                } else if a < pos && b > pos {
                    assert(out@[a] == out0[a]);
                    assert(out@[b] == out0[b - 1]);
                } else if b < pos {
                    assert(out@[a] == out0[a]);
                    assert(out@[b] == out0[b]);
                } else if a > pos {
                    assert(out@[a] == out0[a - 1]);
                    assert(out@[b] == out0[b - 1]);
                }
            }
        }
        i = i + 1;
    }
    proof {
        assert(input@.take(n as int) =~= input@);
    }
    out
}

/// Whether the row at a position sorts no later than an item.
fn chat_le_at(out: &Vec<ChatSummary>, pos: usize, item: &ChatSummary) -> (r: bool)
    requires
        pos < out@.len(),
    ensures
        r == spec_chat_le(out@[pos as int], *item),
{
    chat_le(&out[pos], item)
}

/// Sorts messages by timestamp, by insertion; equal timestamps keep their
/// relative order, and the result is a permutation of the input.
pub fn sort_messages(input: &Vec<CachedMessage>) -> (r: Vec<CachedMessage>)
    ensures
        r@.to_multiset() == input@.to_multiset(),
        forall|a: int, b: int|
            0 <= a < b < r@.len() ==> (#[trigger] r@[a]).timestamp <= (#[trigger] r@[b]).timestamp,
{
    let mut out: Vec<CachedMessage> = Vec::new();
    let n = input.len();
    let mut i: usize = 0;
    proof {
        assert(input@.take(0) =~= Seq::<CachedMessage>::empty());
        assert(out@.to_multiset() =~= input@.take(0).to_multiset()) by {
            assert(out@ =~= input@.take(0));
        }
    }
    while i < n
        invariant
            i <= n,
            n == input@.len(),
            out@.len() == i,
            out@.to_multiset() == input@.take(i as int).to_multiset(),
            forall|a: int, b: int|
                0 <= a < b < out@.len() ==> (#[trigger] out@[a]).timestamp <= (
                #[trigger] out@[b]).timestamp,
        decreases n - i,
    {
        let item = input[i].clone();
        let m = out.len();
        let mut pos: usize = 0;
        while pos < m && message_ts_le(&out, pos, &item)
            invariant
                pos <= m,
                m == out@.len(),
                forall|j: int| 0 <= j < pos ==> (#[trigger] out@[j]).timestamp <= item.timestamp,
            decreases m - pos,
        {
            pos = pos + 1;
        }
        let ghost out0 = out@;
        let ghost x = item;
        out.insert(pos, item);
        proof {
            vstd::seq_lib::to_multiset_insert(out0, pos as int, x);
            vstd::seq_lib::to_multiset_build(input@.take(i as int), input@[i as int]);
            assert(input@.take(i + 1) =~= input@.take(i as int).push(input@[i as int]));
            assert(x == input@[i as int]);
            out0.insert_ensures(pos as int, x);
            assert forall|a: int, b: int|
                0 <= a < b < out@.len() implies (#[trigger] out@[a]).timestamp <= (
            #[trigger] out@[b]).timestamp by {
                if a < pos && b == pos {
                } else if a == pos && b > pos {
                    assert(out@[b] == out0[b - 1]);
                } else if a < pos && b > pos {
                    assert(out@[a] == out0[a]);
                    assert(out@[b] == out0[b - 1]);
                } else if b < pos {
                    assert(out@[a] == out0[a]);
                    assert(out@[b] == out0[b]);
                } else if a > pos {
                    assert(out@[a] == out0[a - 1]);
                    assert(out@[b] == out0[b - 1]);
                }
            }
        }
        i = i + 1;
    }
    proof {
        assert(input@.take(n as int) =~= input@);
    }
    out
}

/// Whether the message at a position is no later than an item.
fn message_ts_le(out: &Vec<CachedMessage>, pos: usize, item: &CachedMessage) -> (r: bool)
    requires
        pos < out@.len(),
    ensures
        r == ((out@[pos as int]).timestamp <= item.timestamp),
{
    out[pos].timestamp <= item.timestamp
}

/// The title a chat renders with: its own title, or `Chat <id>` when the
/// title is blank.
pub open spec fn spec_chat_title(chat: ChatSummary) -> Seq<char> {
    if trimmed_of(chat.title@).len() == 0 {
        "Chat "@ + spec_i64_dec(chat.chat_id.0 as int)
    } else {
        chat.title@
    }
}

/// Renders a chat's display title.
pub fn chat_title(chat: &ChatSummary) -> (r: String)
    ensures
        r@ == spec_chat_title(*chat),
{
    let trimmed = trim(chat.title.as_str());
    if trimmed.is_empty() {
        let mut out = String::new();
        append_str(&mut out, "Chat ");
        let digits = i64_to_string(chat.chat_id.0);
        append_str(&mut out, digits.as_str());
        proof {
            assert(out@ =~= "Chat "@ + spec_i64_dec(chat.chat_id.0 as int));
        }
        out
    } else {
        chat.title.clone()
    }
}

/// The author label of a message: `You` for the local account, else
/// `User <id>`.
pub open spec fn spec_author_label(message: CachedMessage) -> Seq<char> {
    if message.outgoing {
        "You"@
    } else {
        "User "@ + spec_i64_dec(message.author_id.0 as int)
    }
}

/// Renders a message's author label.
pub fn message_author_label(message: &CachedMessage) -> (r: String)
    ensures
        r@ == spec_author_label(*message),
{
    if message.outgoing {
        let mut out = String::new();
        append_str(&mut out, "You");
        proof {
            assert(out@ =~= "You"@);
        }
        out
    } else {
        let mut out = String::new();
        append_str(&mut out, "User ");
        let digits = i64_to_string(message.author_id.0);
        append_str(&mut out, digits.as_str());
        proof {
            assert(out@ =~= "User "@ + spec_i64_dec(message.author_id.0 as int));
        }
        out
    }
}

/// The second of day a Unix timestamp falls on, in UTC.
pub open spec fn spec_second_of_day(ts: int) -> int {
    if ts >= 0 {
        ts % 86400
    } else {
        let back = (-ts) % 86400;
        if back == 0 {
            0
        } else {
            86400 - back
        }
    }
}

/// A value below 100 rendered as two digits.
pub open spec fn spec_two_digits(v: int) -> Seq<char> {
    seq![spec_digit(v / 10), spec_digit(v % 10)]
}

/// `HH:MM` in UTC for a Unix timestamp.
pub open spec fn spec_clock(ts: int) -> Seq<char> {
    let s = spec_second_of_day(ts);
    spec_two_digits(s / 3600) + ":"@ + spec_two_digits((s % 3600) / 60)
}

/// Renders the `HH:MM` clock of a Unix timestamp, in UTC.
pub fn format_timestamp(timestamp: i64) -> (r: String)
    ensures
        r@ == spec_clock(timestamp as int),
{
    let second_of_day: u64 = if timestamp >= 0 {
        (timestamp as u64) % 86400
    } else {
        let back: u64 = ((-(timestamp as i128)) as u64) % 86400;
        if back == 0 {
            0
        } else {
            86400 - back
        }
    };
    let hour = second_of_day / 3600;
    let minute = (second_of_day % 3600) / 60;
    let mut out = String::new();
    push_two_digits(&mut out, hour);
    append_str(&mut out, ":");
    push_two_digits(&mut out, minute);
    proof {
        assert(out@ =~= spec_clock(timestamp as int));
    }
    out
}

/// Appends a value below 100 as two digits.
fn push_two_digits(out: &mut String, v: u64)
    requires
        v < 100,
    ensures
        final(out)@ == old(out)@ + spec_two_digits(v as int),
{
    let tens = v / 10;
    let ones = v % 10;
    crate::text::push_char(out, digit_of(tens));
    crate::text::push_char(out, digit_of(ones));
    proof {
        assert(final(out)@ =~= old(out)@ + spec_two_digits(v as int));
    }
}

fn digit_of(d: u64) -> (r: char)
    requires
        d < 10,
    ensures
        r == spec_digit(d as int),
{
    if d == 0 {
        '0'
    } else if d == 1 {
        '1'
    } else if d == 2 {
        '2'
    } else if d == 3 {
        '3'
    } else if d == 4 {
        '4'
    } else if d == 5 {
        '5'
    } else if d == 6 {
        '6'
    } else if d == 7 {
        '7'
    } else if d == 8 {
        '8'
    } else {
        '9'
    }
}

/// How the chat list projects: some recency-then-title ordering of the
/// summaries, each row carrying its chat's identifier, display title and
/// unread count, the resolved selection kept when still present and falling
/// back to the first chat, and exactly the resolved row marked selected.
pub open spec fn spec_chat_projection(
    summaries: Seq<ChatSummary>,
    prior: Option<ChatId>,
    items: Seq<ChatListItem>,
    resolved: Option<ChatId>,
) -> bool {
    exists|sorted: Seq<ChatSummary>|
        {
            &&& #[trigger] sorted.to_multiset() == summaries.to_multiset()
            &&& forall|a: int, b: int|
                0 <= a < b < sorted.len() ==> spec_chat_le(sorted[a], sorted[b])
            &&& items.len() == sorted.len()
            &&& forall|j: int|
                0 <= j < sorted.len() ==> {
                    &&& (#[trigger] items[j]).id == sorted[j].chat_id.0
                    &&& items[j].title@ == spec_chat_title(sorted[j])
                    &&& items[j].unread == match sorted[j].unread_count {
                        Some(u) => u,
                        None => 0u32,
                    }
                    &&& (items[j].is_selected <==> resolved == Some(sorted[j].chat_id))
                }
            &&& resolved == match prior {
                Some(id) => if exists|j: int|
                    0 <= j < sorted.len() && (#[trigger] sorted[j]).chat_id == id {
                    Some(id)
                } else if sorted.len() > 0 {
                    Some(sorted[0].chat_id)
                } else {
                    None::<ChatId>
                },
                None => if sorted.len() > 0 {
                    Some(sorted[0].chat_id)
                } else {
                    None::<ChatId>
                },
            }
        }
}

/// How the message rows project: some timestamp ordering of the messages,
/// each row carrying its message's identifier, author label, clock and body.
pub open spec fn spec_message_projection(
    messages: Seq<CachedMessage>,
    items: Seq<MessageItem>,
) -> bool {
    exists|sorted: Seq<CachedMessage>|
        {
            &&& #[trigger] sorted.to_multiset() == messages.to_multiset()
            &&& forall|a: int, b: int|
                0 <= a < b < sorted.len() ==> (#[trigger] sorted[a]).timestamp <= (
                #[trigger] sorted[b]).timestamp
            &&& items.len() == sorted.len()
            &&& forall|j: int|
                0 <= j < sorted.len() ==> {
                    &&& (#[trigger] items[j]).id == sorted[j].message_id.0
                    &&& items[j].author@ == spec_author_label(sorted[j])
                    &&& items[j].timestamp@ == spec_clock(sorted[j].timestamp as int)
                    &&& items[j].body == sorted[j].text
                }
        }
}

/// Maps sorted summaries into chat-list rows and resolves which chat is
/// selected: a still-present previous selection is kept, else the first chat.
pub fn map_chat_summaries(summaries: &Vec<ChatSummary>, selected_chat: Option<ChatId>) -> (r: (
    Vec<ChatListItem>,
    Option<ChatId>,
))
    ensures
        spec_chat_projection(summaries@, selected_chat, r.0@, r.1),
{
    let sorted = sort_summaries(summaries);
    let n = sorted.len();
    let resolved: Option<ChatId> = match selected_chat {
        Some(id) => {
            let mut present = false;
            let mut j: usize = 0;
            while j < n
                invariant
                    j <= n,
                    n == sorted@.len(),
                    present <==> exists|u: int|
                        0 <= u < j && (#[trigger] sorted@[u]).chat_id == id,
                decreases n - j,
            {
                if sorted[j].chat_id == id {
                    present = true;
                    proof {
                        assert(sorted@[j as int].chat_id == id);
                    }
                    j = n;
                } else {
                    j = j + 1;
                }
            }
            if present {
                Some(id)
            } else if n > 0 {
                Some(sorted[0].chat_id)
            } else {
                None
            }
        },
        None => {
            if n > 0 {
                Some(sorted[0].chat_id)
            } else {
                None
            }
        },
    };
    let mut items: Vec<ChatListItem> = Vec::new();
    let mut j: usize = 0;
    while j < n
        invariant
            j <= n,
            n == sorted@.len(),
            items@.len() == j,
            forall|t: int|
                0 <= t < j ==> {
                    &&& (#[trigger] items@[t]).id == sorted@[t].chat_id.0
                    &&& items@[t].title@ == spec_chat_title(sorted@[t])
                    &&& items@[t].unread == match sorted@[t].unread_count {
                        Some(u) => u,
                        None => 0u32,
                    }
                    &&& (items@[t].is_selected <==> resolved == Some(sorted@[t].chat_id))
                },
        decreases n - j,
    {
        let is_selected = match resolved {
            Some(id) => sorted[j].chat_id == id,
            None => false,
        };
        let unread = match sorted[j].unread_count {
            Some(u) => u,
            None => 0,
        };
        let item = ChatListItem { id: sorted[j].chat_id.0, title: chat_title(&sorted[j]), unread, is_selected };
        items.push(item);
        j = j + 1;
    }
    (items, resolved)
}

/// Maps messages into rendered rows, sorted by timestamp.
pub fn map_messages(messages: &Vec<CachedMessage>) -> (r: Vec<MessageItem>)
    ensures
        spec_message_projection(messages@, r@),
{
    let sorted = sort_messages(messages);
    let n = sorted.len();
    let mut items: Vec<MessageItem> = Vec::new();
    let mut j: usize = 0;
    while j < n
        invariant
            j <= n,
            n == sorted@.len(),
            items@.len() == j,
            forall|t: int|
                0 <= t < j ==> {
                    &&& (#[trigger] items@[t]).id == sorted@[t].message_id.0
                    &&& items@[t].author@ == spec_author_label(sorted@[t])
                    &&& items@[t].timestamp@ == spec_clock(sorted@[t].timestamp as int)
                    &&& items@[t].body == sorted@[t].text
                },
        decreases n - j,
    {
        let item = MessageItem {
            id: sorted[j].message_id.0,
            author: message_author_label(&sorted[j]),
            timestamp: format_timestamp(sorted[j].timestamp),
            body: sorted[j].text.clone(),
        };
        items.push(item);
        j = j + 1;
    }
    items
}

/// Adapts the cache to the interactive surface: remembers the selected chat
/// and the message window size, and rebuilds the view-model on demand.
#[derive(Debug)]
pub struct UiCacheBridge {
    pub state: UiState,
    pub selected_chat: Option<ChatId>,
    pub message_limit: Option<usize>,
}

impl UiCacheBridge {
    /// A fresh bridge with an empty surface.
    pub fn new(message_limit: Option<usize>) -> (r: Self)
        ensures
            r.state.wf(),
            r.selected_chat is None,
            r.message_limit == message_limit,
            r.state.chats@.len() == 0,
            r.state.messages@.len() == 0,
    {
        UiCacheBridge { state: UiState::default(), selected_chat: None, message_limit }
    }

    /// Pins the selected chat, for tests and for restoring a session.
    pub fn set_selected_chat(&mut self, chat_id: Option<ChatId>)
        ensures
            final(self).selected_chat == chat_id,
            final(self).state == old(self).state,
            final(self).message_limit == old(self).message_limit,
    {
        self.selected_chat = chat_id;
    }

    /// First refresh phase: rebuilds the chat list from the given summaries
    /// and resolves the selection; returns the chat whose messages the caller
    /// should fetch next.
    pub fn refresh_chats(&mut self, summaries: &Vec<ChatSummary>) -> (r: Option<ChatId>)
        requires
            old(self).state.wf(),
        ensures
            final(self).state.wf(),
            final(self).selected_chat == r,
            final(self).message_limit == old(self).message_limit,
            final(self).state.messages@ == old(self).state.messages@,
            final(self).state.message_view == old(self).state.message_view,
            final(self).state.input == old(self).state.input,
            spec_chat_projection(
                summaries@,
                old(self).selected_chat,
                final(self).state.chats@,
                r,
            ),
    {
        let (items, resolved) = map_chat_summaries(summaries, self.selected_chat);
        self.selected_chat = resolved;
        self.state.chats = items;
        resolved
    }

    /// Second refresh phase: rebuilds the message rows for the resolved
    /// selection and re-anchors the message view.
    pub fn apply_messages(&mut self, messages: &Vec<CachedMessage>)
        requires
            old(self).state.wf(),
        ensures
            final(self).state.wf(),
            final(self).selected_chat == old(self).selected_chat,
            final(self).message_limit == old(self).message_limit,
            final(self).state.chats@ == old(self).state.chats@,
            final(self).state.input == old(self).state.input,
            spec_message_projection(messages@, final(self).state.messages@),
            crate::view::spec_reconciled(
                old(self).state.message_view,
                final(self).state.message_view,
                final(self).state.messages@,
            ),
    {
        let items = map_messages(messages);
        self.state.messages = items;
        let message_rows = &self.state.messages;
        self.state.message_view.reconcile(message_rows);
    }
}

} // verus!

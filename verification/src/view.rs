//! View-model state: the chat list and message items the renderer draws, the
//! message cursor and scroll window, multi-select, and in-view search.

use vstd::prelude::*;

use crate::input::InputState;
use crate::text::{
    append_str, contains_chars, lower_of, spec_contains, str_chars, to_lowercase, trim, trimmed_of,
};

verus! {

/// One row of the chat list.
#[derive(Debug, PartialEq, Eq)]
pub struct ChatListItem {
    pub id: i64,
    pub title: String,
    pub unread: u32,
    pub is_selected: bool,
}

impl Clone for ChatListItem {
    fn clone(&self) -> (res: Self)
        ensures
            res == *self,
    {
        ChatListItem {
            id: self.id,
            title: self.title.clone(),
            unread: self.unread,
            is_selected: self.is_selected,
        }
    }
}

/// One rendered message row.
#[derive(Debug, PartialEq, Eq)]
pub struct MessageItem {
    pub id: i64,
    pub author: String,
    pub timestamp: String,
    pub body: String,
}

impl Clone for MessageItem {
    fn clone(&self) -> (res: Self)
        ensures
            res == *self,
    {
        MessageItem {
            id: self.id,
            author: self.author.clone(),
            timestamp: self.timestamp.clone(),
            body: self.body.clone(),
        }
    }
}

/// Which pane has the keyboard.
#[derive(Debug, Clone, Copy, PartialEq, Eq, Structural)]
pub enum UiFocus {
    Chats,
    Messages,
    Composer,
    Search,
}

impl Default for UiFocus {
    fn default() -> (r: Self)
        ensures
            r == UiFocus::Messages,
    {
        UiFocus::Messages
    }
}

/// The search text a message matches against: author, a space, body,
/// lowercased.
pub open spec fn spec_message_haystack(m: MessageItem) -> Seq<char> {
    lower_of(m.author@ + " "@ + m.body@)
}

/// Whether one message matches a lowercased needle.
pub open spec fn spec_message_matches(m: MessageItem, needle: Seq<char>) -> bool {
    spec_contains(spec_message_haystack(m), needle)
}

/// The lowercased, trimmed form of the query text.
pub open spec fn spec_needle(query: Seq<char>) -> Seq<char> {
    lower_of(trimmed_of(query))
}

/// In-view search state: the query editor, the matching message positions in
/// ascending order, and which match is selected.
#[derive(Debug)]
pub struct MessageSearchState {
    pub is_open: bool,
    pub query: InputState,
    pub matches: Vec<usize>,
    pub selected: usize,
}

impl Clone for MessageSearchState {
    fn clone(&self) -> (res: Self)
        ensures
            res.is_open == self.is_open,
            res.query == self.query,
            res.matches@ == self.matches@,
            res.selected == self.selected,
    {
        MessageSearchState {
            is_open: self.is_open,
            query: self.query.clone(),
            matches: self.matches.clone(),
            selected: self.selected,
        }
    }
}

impl Default for MessageSearchState {
    fn default() -> (r: Self)
        ensures
            !r.is_open,
            r.query.text@ == Seq::<char>::empty(),
            r.query.cursor == 0,
            r.matches@ == Seq::<usize>::empty(),
            r.selected == 0,
    {
        MessageSearchState {
            is_open: false,
            query: InputState::default(),
            matches: Vec::new(),
            selected: 0,
        }
    }
}

impl MessageSearchState {
    /// The matches are positions into a message list of the given length, in
    /// strictly ascending order, and the selection points at one of them (or
    /// rests at 0 when there are none).
    pub open spec fn wf(&self, messages_len: int) -> bool {
        &&& forall|t: int| 0 <= t < self.matches@.len() ==> (#[trigger] self.matches@[t]) < messages_len
        &&& forall|a: int, b: int|
            0 <= a < b < self.matches@.len() ==> (#[trigger] self.matches@[a])
                < (#[trigger] self.matches@[b])
        &&& (self.matches@.len() == 0 ==> self.selected == 0)
        &&& (self.matches@.len() > 0 ==> self.selected < self.matches@.len())
    }

    /// Recomputes the match positions for the current query: an empty
    /// (trimmed) query clears them; otherwise a position is listed exactly
    /// when its message contains the lowercased needle. The selection resets
    /// to 0 when it no longer points at a match.
    pub fn recompute_matches(&mut self, messages: &Vec<MessageItem>)
        ensures
            final(self).wf(messages@.len() as int),
            final(self).is_open == old(self).is_open,
            final(self).query == old(self).query,
            trimmed_of(old(self).query.text@).len() == 0 ==> final(self).matches@
                == Seq::<usize>::empty() && final(self).selected == 0,
            trimmed_of(old(self).query.text@).len() > 0 ==> {
                &&& forall|t: int|
                    0 <= t < final(self).matches@.len() ==> spec_message_matches(
                        messages@[(#[trigger] final(self).matches@[t]) as int],
                        spec_needle(old(self).query.text@),
                    )
                &&& forall|idx: int|
                    0 <= idx < messages@.len() && spec_message_matches(
                        #[trigger] messages@[idx],
                        spec_needle(old(self).query.text@),
                    ) ==> final(self).matches@.contains(idx as usize)
            },
            final(self).selected == if final(self).matches@.len() > 0 && old(self).selected
                < final(self).matches@.len() {
                old(self).selected as int
            } else {
                0int
            },
    {
        let trimmed = trim(self.query.text.as_str());
        if trimmed.is_empty() {
            self.matches = Vec::new();
            self.selected = 0;
            return ;
        }
        let lowered = to_lowercase(trimmed);
        let needle = str_chars(lowered.as_str());
        let mut found: Vec<usize> = Vec::new();
        let n = messages.len();
        let mut idx: usize = 0;
        while idx < n
            invariant
                idx <= n,
                n == messages@.len(),
                needle@ == spec_needle(self.query.text@),
                forall|t: int|
                    0 <= t < found@.len() ==> (#[trigger] found@[t]) < idx,
                forall|a: int, b: int|
                    0 <= a < b < found@.len() ==> (#[trigger] found@[a]) < (#[trigger] found@[b]),
                forall|t: int|
                    0 <= t < found@.len() ==> spec_message_matches(
                        messages@[(#[trigger] found@[t]) as int],
                        spec_needle(self.query.text@),
                    ),
                forall|j: int|
                    0 <= j < idx && spec_message_matches(
                        #[trigger] messages@[j],
                        spec_needle(self.query.text@),
                    ) ==> found@.contains(j as usize),
            decreases n - idx,
        {
            let mut hay = messages[idx].author.clone();
            append_str(&mut hay, " ");
            append_str(&mut hay, messages[idx].body.as_str());
            let lowered_hay = to_lowercase(hay.as_str());
            let hay_chars = str_chars(lowered_hay.as_str());
            if contains_chars(&hay_chars, &needle) {
                let ghost found0 = found@;
                found.push(idx);
                proof {
                    assert(found@[found@.len() - 1] == idx);
                    assert forall|j: int|
                        0 <= j < idx + 1 && spec_message_matches(
                            #[trigger] messages@[j],
                            spec_needle(self.query.text@),
                        ) implies found@.contains(j as usize) by {
                        if j < idx {
                            assert(found0.contains(j as usize));
                            let w = choose|w: int|
                                0 <= w < found0.len() && found0[w] == j as usize;
                            assert(found@[w] == j as usize);
                        } else {
                            assert(found@[found@.len() - 1] == j as usize);
                        }
                    }
                }
            } else {
                proof {
                    assert forall|j: int|
                        0 <= j < idx + 1 && spec_message_matches(
                            #[trigger] messages@[j],
                            spec_needle(self.query.text@),
                        ) implies found@.contains(j as usize) by {
                        assert(j != idx);
                    }
                }
            }
            idx = idx + 1;
        }
        let empty_or_past = found.len() == 0 || self.selected >= found.len();
        if empty_or_past {
            self.selected = 0;
        }
        self.matches = found;
    }

    /// The message position of the selected match, if any.
    pub fn selected_match(&self) -> (r: Option<usize>)
        ensures
            r == if self.selected < self.matches@.len() {
                Some(self.matches@[self.selected as int])
            } else {
                None::<usize>
            },
    {
        if self.selected < self.matches.len() {
            Some(self.matches[self.selected])
        } else {
            None
        }
    }

    /// Steps the selection forward or backward, wrapping around; returns the
    /// newly selected message position, or nothing without matches.
    pub fn advance(&mut self, forward: bool) -> (r: Option<usize>)
        requires
            old(self).matches@.len() > 0 ==> old(self).selected < old(self).matches@.len(),
        ensures
            final(self).is_open == old(self).is_open,
            final(self).query == old(self).query,
            final(self).matches@ == old(self).matches@,
            old(self).matches@.len() == 0 ==> r is None && final(self).selected == old(
                self,
            ).selected,
            old(self).matches@.len() > 0 ==> {
                &&& final(self).selected == if forward {
                    (old(self).selected + 1) % (old(self).matches@.len() as int)
                } else if old(self).selected == 0 {
                    old(self).matches@.len() - 1
                } else {
                    old(self).selected - 1
                }
                &&& r == Some(final(self).matches@[final(self).selected as int])
            },
    {
        let len = self.matches.len();
        if len == 0 {
            return None;
        }
        if forward {
            self.selected = (self.selected + 1) % len;
        } else if self.selected == 0 {
            self.selected = len - 1;
        } else {
            self.selected = self.selected - 1;
        }
        Some(self.matches[self.selected])
    }
}

/// Whether a sorted identifier list contains a value.
pub open spec fn spec_ids_contain(ids: Seq<i64>, x: i64) -> bool {
    exists|t: int| 0 <= t < ids.len() && ids[t] == x
}

/// Whether some message in the list carries this identifier.
pub open spec fn spec_present_in(messages: Seq<MessageItem>, x: i64) -> bool {
    exists|j: int| 0 <= j < messages.len() && (#[trigger] messages[j]).id == x
}

/// How re-anchoring relates the view before and after, for a message list:
/// the view is well formed against the list, the page size and the search
/// query are kept, an identifier stays selected exactly when it was selected
/// and its message survived, and the cursor and the scroll window are clamped
/// into the list (a beyond-the-end or missing cursor lands on the last
/// message).
pub open spec fn spec_reconciled(
    before: MessageViewState,
    after: MessageViewState,
    messages: Seq<MessageItem>,
) -> bool {
    &&& after.wf(messages.len() as int)
    &&& after.page_size == before.page_size
    &&& after.search.is_open == before.search.is_open
    &&& after.search.query == before.search.query
    &&& forall|x: i64|
        spec_ids_contain(after.selected_ids@, x) <==> (spec_ids_contain(before.selected_ids@, x)
            && spec_present_in(messages, x))
    &&& (messages.len() == 0 ==> after.cursor is None && after.scroll_offset == 0)
    &&& (messages.len() > 0 ==> after.cursor == Some(
        (
        if before.cursor is Some {
            if before.cursor->Some_0 < messages.len() {
                before.cursor->Some_0 as int
            } else {
                messages.len() - 1
            }
        } else {
            messages.len() - 1
        }) as usize,
    ) && after.scroll_offset == if before.scroll_offset < messages.len() {
        before.scroll_offset as int
    } else {
        messages.len() - 1
    })
}

/// Message-pane state: the scroll window, the cursor, the multi-selection
/// (kept sorted), the search, and the page size.
#[derive(Debug)]
pub struct MessageViewState {
    pub scroll_offset: usize,
    pub cursor: Option<usize>,
    pub selected_ids: Vec<i64>,
    pub search: MessageSearchState,
    pub page_size: usize,
}

impl Default for MessageViewState {
    fn default() -> (r: Self)
        ensures
            r.scroll_offset == 0,
            r.cursor is None,
            r.selected_ids@ == Seq::<i64>::empty(),
            r.page_size == 8,
            !r.search.is_open,
            r.search.matches@ == Seq::<usize>::empty(),
            r.search.selected == 0,
            r.search.query.text@ == Seq::<char>::empty(),
            r.search.query.cursor == 0,
    {
        MessageViewState {
            scroll_offset: 0,
            cursor: None,
            selected_ids: Vec::new(),
            search: MessageSearchState::default(),
            page_size: 8,
        }
    }
}

impl Clone for MessageViewState {
    fn clone(&self) -> (res: Self)
        ensures
            res.scroll_offset == self.scroll_offset,
            res.cursor == self.cursor,
            res.selected_ids@ == self.selected_ids@,
            res.search.is_open == self.search.is_open,
            res.search.query == self.search.query,
            res.search.matches@ == self.search.matches@,
            res.search.selected == self.search.selected,
            res.page_size == self.page_size,
    {
        MessageViewState {
            scroll_offset: self.scroll_offset,
            cursor: self.cursor,
            selected_ids: self.selected_ids.clone(),
            search: self.search.clone(),
            page_size: self.page_size,
        }
    }
}

impl MessageViewState {
    /// The cursor and the scroll window stay inside the message list, and
    /// the selection identifiers are strictly ascending.
    pub open spec fn wf(&self, messages_len: int) -> bool {
        &&& (self.cursor matches Some(c) ==> c < messages_len)
        &&& (messages_len > 0 ==> self.scroll_offset < messages_len)
        &&& (messages_len == 0 ==> self.scroll_offset == 0)
        &&& forall|a: int, b: int|
            0 <= a < b < self.selected_ids@.len() ==> (#[trigger] self.selected_ids@[a])
                < (#[trigger] self.selected_ids@[b])
        &&& self.search.wf(messages_len)
    }

    /// Re-anchors the view after the message list changed: stale selections
    /// drop out, the cursor lands on the last message when it was beyond (or
    /// never set), the scroll window is clamped, and the search matches are
    /// recomputed.
    pub fn reconcile(&mut self, messages: &Vec<MessageItem>)
        requires
            forall|a: int, b: int|
                0 <= a < b < old(self).selected_ids@.len() ==> (#[trigger] old(self).selected_ids@[a])
                    < (#[trigger] old(self).selected_ids@[b]),
        ensures
            spec_reconciled(*old(self), *final(self), messages@),
    {
        let n = messages.len();
        let mut kept: Vec<i64> = Vec::new();
        let total = self.selected_ids.len();
        let mut t: usize = 0;
        while t < total
            invariant
                t <= total,
                total == self.selected_ids@.len(),
                forall|a: int, b: int|
                    0 <= a < b < self.selected_ids@.len() ==> (#[trigger] self.selected_ids@[a])
                        < (#[trigger] self.selected_ids@[b]),
                forall|a: int, b: int|
                    0 <= a < b < kept@.len() ==> (#[trigger] kept@[a]) < (#[trigger] kept@[b]),
                forall|a: int|
                    0 <= a < kept@.len() ==> exists|u: int|
                        0 <= u < t && self.selected_ids@[u] == (#[trigger] kept@[a]),
                forall|a: int|
                    0 <= a < kept@.len() ==> spec_present_in(messages@, #[trigger] kept@[a]),
                forall|u: int|
                    0 <= u < t && spec_present_in(
                        messages@,
                        (#[trigger] self.selected_ids@[u]),
                    ) ==> spec_ids_contain(kept@, self.selected_ids@[u]),
                n == messages@.len(),
            decreases total - t,
        {
            let id = self.selected_ids[t];
            let mut present = false;
            let mut j: usize = 0;
            while j < n
                invariant
                    j <= n,
                    n == messages@.len(),
                    present <==> exists|u: int|
                        0 <= u < j && (#[trigger] messages@[u]).id == id,
                decreases n - j,
            {
                if messages[j].id == id {
                    present = true;
                    proof {
                        assert(messages@[j as int].id == id);
                    }
                    j = n;
                } else {
                    j = j + 1;
                }
            }
            let ghost kept0 = kept@;
            if present {
                kept.push(id);
                proof {
                    assert(kept@[kept@.len() - 1] == id);
                    assert(spec_present_in(messages@, id));
                    assert forall|a: int, b: int|
                        0 <= a < b < kept@.len() implies (#[trigger] kept@[a]) < (
                    #[trigger] kept@[b]) by {
                        if b == kept@.len() - 1 {
                            let u = choose|u: int|
                                0 <= u < t && self.selected_ids@[u] == kept0[a];
                            assert(self.selected_ids@[u] < self.selected_ids@[t as int]);
                        }
                    }
                }
            }
            proof {
                assert forall|u: int|
                    0 <= u < t + 1 && spec_present_in(
                        messages@,
                        (#[trigger] self.selected_ids@[u]),
                    ) implies spec_ids_contain(kept@, self.selected_ids@[u]) by {
                    if u < t {
                        let w = choose|w: int|
                            0 <= w < kept0.len() && kept0[w] == self.selected_ids@[u];
                        assert(kept@[w] == self.selected_ids@[u]);
                    } else {
                        assert(kept@[kept@.len() - 1] == self.selected_ids@[u]);
                    }
                }
            }
            t = t + 1;
        }
        proof {
            assert forall|x: i64|
                spec_ids_contain(kept@, x) <==> (spec_ids_contain(old(self).selected_ids@, x)
                    && spec_present_in(messages@, x)) by {
                if spec_ids_contain(kept@, x) {
                    let a = choose|a: int| 0 <= a < kept@.len() && kept@[a] == x;
                    let u = choose|u: int|
                        0 <= u < total && self.selected_ids@[u] == kept@[a];
                    assert(old(self).selected_ids@[u] == x);
                    assert(spec_present_in(messages@, kept@[a]));
                }
                if spec_ids_contain(old(self).selected_ids@, x) && spec_present_in(messages@, x) {
                    let u = choose|u: int|
                        0 <= u < old(self).selected_ids@.len() && old(self).selected_ids@[u] == x;
                    assert(spec_ids_contain(kept@, self.selected_ids@[u]));
                }
            }
        }
        self.selected_ids = kept;
        if n == 0 {
            self.cursor = None;
            self.scroll_offset = 0;
        } else {
            let max_index = n - 1;
            let c = match self.cursor {
                Some(c) => if c < n {
                    c
                } else {
                    max_index
                },
                None => max_index,
            };
            self.cursor = Some(c);
            if self.scroll_offset > max_index {
                self.scroll_offset = max_index;
            }
        }
        self.search.recompute_matches(messages);
    }

    /// Toggles one message in the multi-selection.
    pub fn toggle_selection(&mut self, message_id: i64)
        requires
            forall|a: int, b: int|
                0 <= a < b < old(self).selected_ids@.len() ==> (#[trigger] old(self).selected_ids@[a])
                    < (#[trigger] old(self).selected_ids@[b]),
        ensures
            final(self).cursor == old(self).cursor,
            final(self).scroll_offset == old(self).scroll_offset,
            final(self).page_size == old(self).page_size,
            final(self).search == old(self).search,
            forall|a: int, b: int|
                0 <= a < b < final(self).selected_ids@.len() ==> (#[trigger] final(self).selected_ids@[a])
                    < (#[trigger] final(self).selected_ids@[b]),
            spec_ids_contain(final(self).selected_ids@, message_id) <==> !spec_ids_contain(
                old(self).selected_ids@,
                message_id,
            ),
            forall|x: i64|
                x != message_id ==> (spec_ids_contain(final(self).selected_ids@, x)
                    <==> spec_ids_contain(old(self).selected_ids@, x)),
    {
        let n = self.selected_ids.len();
        let mut pos: usize = 0;
        while pos < n && self.selected_ids[pos] < message_id
            invariant
                pos <= n,
                n == self.selected_ids@.len(),
                forall|a: int| 0 <= a < pos ==> (#[trigger] self.selected_ids@[a]) < message_id,
            decreases n - pos,
        {
            pos = pos + 1;
        }
        proof {
            assert forall|a: int, b: int|
                0 <= a < b < self.selected_ids@.len() implies (#[trigger] self.selected_ids@[a])
                < (#[trigger] self.selected_ids@[b]) by {}
        }
        if pos < n && self.selected_ids[pos] == message_id {
            self.selected_ids.remove(pos);
            proof {
                let ids0 = old(self).selected_ids@;
                assert forall|x: i64|
                    x != message_id implies (spec_ids_contain(self.selected_ids@, x)
                    <==> spec_ids_contain(ids0, x)) by {
                    if spec_ids_contain(ids0, x) {
                        let w = choose|w: int| 0 <= w < ids0.len() && ids0[w] == x;
                        if w < pos {
                            assert(self.selected_ids@[w] == x);
                        } else if w > pos {
                            assert(self.selected_ids@[w - 1] == x);
                        }
                    }
                    if spec_ids_contain(self.selected_ids@, x) {
                        let w = choose|w: int|
                            0 <= w < self.selected_ids@.len() && self.selected_ids@[w] == x;
                        if w < pos {
                            assert(ids0[w] == x);
                        } else {
                            assert(ids0[w + 1] == x);
                        }
                    }
                }
                assert forall|t2: int|
                    0 <= t2 < self.selected_ids@.len() implies (#[trigger] self.selected_ids@[t2])
                    != message_id by {
                    if t2 < pos {
                        assert(self.selected_ids@[t2] == old(self).selected_ids@[t2]);
                    } else {
                        assert(self.selected_ids@[t2] == old(self).selected_ids@[t2 + 1]);
                        assert(old(self).selected_ids@[pos as int] < old(self).selected_ids@[t2
                            + 1]);
                    }
                }
            }
        } else {
            proof {
                assert forall|t2: int|
                    0 <= t2 < self.selected_ids@.len() implies (#[trigger] self.selected_ids@[t2])
                    != message_id by {
                    if t2 >= pos {
                        if pos < n {
                            if t2 > pos {
                                assert(self.selected_ids@[pos as int] < self.selected_ids@[t2]);
                            }
                        }
                    }
                }
            }
            self.selected_ids.insert(pos, message_id);
            proof {
                let ids0 = old(self).selected_ids@;
                assert(self.selected_ids@[pos as int] == message_id);
                assert forall|x: i64|
                    x != message_id implies (spec_ids_contain(self.selected_ids@, x)
                    <==> spec_ids_contain(ids0, x)) by {
                    if spec_ids_contain(ids0, x) {
                        let w = choose|w: int| 0 <= w < ids0.len() && ids0[w] == x;
                        if w < pos {
                            assert(self.selected_ids@[w] == x);
                        } else {
                            assert(self.selected_ids@[w + 1] == x);
                        }
                    }
                    if spec_ids_contain(self.selected_ids@, x) {
                        let w = choose|w: int|
                            0 <= w < self.selected_ids@.len() && self.selected_ids@[w] == x;
                        if w < pos {
                            assert(ids0[w] == x);
                        } else if w > pos {
                            assert(ids0[w - 1] == x);
                        }
                    }
                }
                assert forall|a: int, b: int|
                    0 <= a < b < self.selected_ids@.len() implies (#[trigger] self.selected_ids@[a])
                    < (#[trigger] self.selected_ids@[b]) by {
                    let ids0 = old(self).selected_ids@;
                    if a == pos {
                        assert(self.selected_ids@[b] == ids0[b - 1]);
                    } else if b == pos {
                        assert(self.selected_ids@[a] == ids0[a]);
                    } else if a < pos && b > pos {
                        assert(self.selected_ids@[a] == ids0[a]);
                        assert(self.selected_ids@[b] == ids0[b - 1]);
                        if a < pos && pos < n {
                        }
                    } else if b < pos {
                        assert(self.selected_ids@[a] == ids0[a]);
                        assert(self.selected_ids@[b] == ids0[b]);
                    } else {
                        assert(self.selected_ids@[a] == ids0[a - 1]);
                        assert(self.selected_ids@[b] == ids0[b - 1]);
                    }
                }
            }
        }
    }

    /// The identifier of the message under the cursor, if any.
    pub fn cursor_message_id(&self, messages: &Vec<MessageItem>) -> (r: Option<i64>)
        ensures
            r == match self.cursor {
                Some(c) => if c < messages@.len() {
                    Some(messages@[c as int].id)
                } else {
                    None::<i64>
                },
                None => None::<i64>,
            },
    {
        match self.cursor {
            Some(c) => if c < messages.len() {
                Some(messages[c].id)
            } else {
                None
            },
            None => None,
        }
    }
}

/// The draft-review modal.
#[derive(Debug)]
pub struct DraftModalState {
    pub is_open: bool,
    pub title: String,
    pub body: String,
}

impl Default for DraftModalState {
    fn default() -> (r: Self)
        ensures
            !r.is_open,
            r.title@ == "LLM Draft"@,
            r.body@ == Seq::<char>::empty(),
    {
        let mut title = String::new();
        append_str(&mut title, "LLM Draft");
        proof {
            assert(title@ =~= "LLM Draft"@);
        }
        DraftModalState { is_open: false, title, body: String::new() }
    }
}

impl Clone for DraftModalState {
    fn clone(&self) -> (res: Self)
        ensures
            res == *self,
    {
        DraftModalState {
            is_open: self.is_open,
            title: self.title.clone(),
            body: self.body.clone(),
        }
    }
}

/// The command palette overlay.
#[derive(Debug)]
pub struct CommandPaletteState {
    pub is_open: bool,
    pub query: String,
    pub items: Vec<String>,
    pub selected: usize,
}

impl Default for CommandPaletteState {
    fn default() -> (r: Self)
        ensures
            !r.is_open,
            r.query@ == Seq::<char>::empty(),
            r.items@ == Seq::<String>::empty(),
            r.selected == 0,
    {
        CommandPaletteState { is_open: false, query: String::new(), items: Vec::new(), selected: 0 }
    }
}

impl Clone for CommandPaletteState {
    fn clone(&self) -> (res: Self)
        ensures
            res.is_open == self.is_open,
            res.query == self.query,
            res.items@.len() == self.items@.len(),
            res.selected == self.selected,
    {
        let mut items: Vec<String> = Vec::new();
        let n = self.items.len();
        let mut i: usize = 0;
        while i < n
            invariant
                i <= n,
                n == self.items@.len(),
                items@.len() == i,
            decreases n - i,
        {
            items.push(self.items[i].clone());
            i = i + 1;
        }
        CommandPaletteState {
            is_open: self.is_open,
            query: self.query.clone(),
            items,
            selected: self.selected,
        }
    }
}

/// The whole interactive surface: focus, composer, chat list, message list,
/// and the overlays.
#[derive(Debug)]
pub struct UiState {
    pub focus: UiFocus,
    pub input: InputState,
    pub chats: Vec<ChatListItem>,
    pub messages: Vec<MessageItem>,
    pub message_view: MessageViewState,
    pub draft_modal: DraftModalState,
    pub command_palette: CommandPaletteState,
}

impl Default for UiState {
    fn default() -> (r: Self)
        ensures
            r.focus == UiFocus::Messages,
            r.input.text@ == Seq::<char>::empty(),
            r.input.cursor == 0,
            r.chats@ == Seq::<ChatListItem>::empty(),
            r.messages@ == Seq::<MessageItem>::empty(),
            r.message_view.cursor is None,
            r.message_view.scroll_offset == 0,
            r.message_view.selected_ids@ == Seq::<i64>::empty(),
            r.message_view.page_size == 8,
            !r.message_view.search.is_open,
            r.message_view.search.matches@ == Seq::<usize>::empty(),
            r.message_view.search.selected == 0,
            r.message_view.search.query.text@ == Seq::<char>::empty(),
            r.message_view.search.query.cursor == 0,
            !r.draft_modal.is_open,
            !r.command_palette.is_open,
    {
        UiState {
            focus: UiFocus::default(),
            input: InputState::default(),
            chats: Vec::new(),
            messages: Vec::new(),
            message_view: MessageViewState::default(),
            draft_modal: DraftModalState::default(),
            command_palette: CommandPaletteState::default(),
        }
    }
}

impl UiState {
    /// The composer and the message view are consistent with the lists they
    /// index into.
    pub open spec fn wf(&self) -> bool {
        &&& self.input.wf()
        &&& self.message_view.wf(self.messages@.len() as int)
        &&& self.message_view.search.query.wf()
    }
}

/// Whether a sorted identifier list holds a value, executably.
pub fn ids_contain(ids: &Vec<i64>, x: i64) -> (r: bool)
    ensures
        r == spec_ids_contain(ids@, x),
{
    let n = ids.len();
    let mut i: usize = 0;
    while i < n
        invariant
            i <= n,
            n == ids@.len(),
            forall|j: int| 0 <= j < i ==> ids@[j] != x,
        decreases n - i,
    {
        if ids[i] == x {
            proof {
                assert(ids@[i as int] == x);
            }
            return true;
        }
        i = i + 1;
    }
    false
}

/// Whether a position list holds a value, executably.
pub fn positions_contain(positions: &Vec<usize>, x: usize) -> (r: bool)
    ensures
        r == positions@.contains(x),
{
    let n = positions.len();
    let mut i: usize = 0;
    while i < n
        invariant
            i <= n,
            n == positions@.len(),
            forall|j: int| 0 <= j < i ==> positions@[j] != x,
        decreases n - i,
    {
        if positions[i] == x {
            proof {
                assert(positions@[i as int] == x);
            }
            return true;
        }
        i = i + 1;
    }
    false
}

/// Title of the message pane: it names the in-view search and its query.
pub open spec fn spec_view_title(search_open: bool, query: Seq<char>) -> Seq<char> {
    if search_open || query.len() > 0 {
        if query.len() == 0 {
            "Messages (search)"@
        } else {
            "Messages (search: "@ + query + ")"@
        }
    } else {
        "Messages"@
    }
}

/// Renders the message-pane title.
pub fn message_view_title(state: &UiState) -> (r: String)
    ensures
        r@ == spec_view_title(
            state.message_view.search.is_open,
            state.message_view.search.query.text@,
        ),
{
    let query = &state.message_view.search.query.text;
    let query_empty = query.as_str().is_empty();
    if state.message_view.search.is_open || !query_empty {
        if query_empty {
            let mut out = String::new();
            append_str(&mut out, "Messages (search)");
            proof {
                assert(out@ =~= "Messages (search)"@);
            }
            out
        } else {
            let mut out = String::new();
            append_str(&mut out, "Messages (search: ");
            append_str(&mut out, query.as_str());
            append_str(&mut out, ")");
            proof {
                assert(out@ =~= "Messages (search: "@ + state.message_view.search.query.text@
                    + ")"@);
            }
            out
        }
    } else {
        let mut out = String::new();
        append_str(&mut out, "Messages");
        proof {
            assert(out@ =~= "Messages"@);
        }
        out
    }
}

/// One rendered message line: the cursor marker, the selection and match
/// markers, the bracketed clock when there is one, the author and the body.
pub open spec fn spec_message_line(
    cursor: Option<usize>,
    selected_ids: Seq<i64>,
    matches: Seq<usize>,
    m: MessageItem,
    idx: int,
) -> Seq<char> {
    let cursor_marker: Seq<char> = if (cursor matches Some(c) && c == idx) {
        ">"@
    } else {
        " "@
    };
    let selected_marker: Seq<char> = if spec_ids_contain(selected_ids, m.id) {
        "x"@
    } else {
        " "@
    };
    let match_marker: Seq<char> = if matches.contains(idx as usize) {
        "*"@
    } else {
        " "@
    };
    let clock: Seq<char> = if m.timestamp@.len() == 0 {
        Seq::empty()
    } else {
        "["@ + m.timestamp@ + "] "@
    };
    cursor_marker + " ["@ + selected_marker + match_marker + "] "@ + clock + m.author@ + ": "@
        + m.body@
}

/// Renders every message as one line, in order; the shell joins and scrolls
/// them.
pub fn message_lines(state: &UiState) -> (r: Vec<String>)
    ensures
        r@.len() == state.messages@.len(),
        forall|idx: int|
            0 <= idx < r@.len() ==> (#[trigger] r@[idx])@ == spec_message_line(
                state.message_view.cursor,
                state.message_view.selected_ids@,
                state.message_view.search.matches@,
                state.messages@[idx],
                idx,
            ),
{
    let n = state.messages.len();
    let mut out: Vec<String> = Vec::new();
    let mut idx: usize = 0;
    while idx < n
        invariant
            idx <= n,
            n == state.messages@.len(),
            out@.len() == idx,
            forall|t: int|
                0 <= t < idx ==> (#[trigger] out@[t])@ == spec_message_line(
                    state.message_view.cursor,
                    state.message_view.selected_ids@,
                    state.message_view.search.matches@,
                    state.messages@[t],
                    t,
                ),
        decreases n - idx,
    {
        let under_cursor = match state.message_view.cursor {
            Some(c) => c == idx,
            None => false,
        };
        let selected = ids_contain(&state.message_view.selected_ids, state.messages[idx].id);
        let matched = positions_contain(&state.message_view.search.matches, idx);
        let mut line = String::new();
        append_str(&mut line, if under_cursor { ">" } else { " " });
        append_str(&mut line, " [");
        append_str(&mut line, if selected { "x" } else { " " });
        append_str(&mut line, if matched { "*" } else { " " });
        append_str(&mut line, "] ");
        if !state.messages[idx].timestamp.as_str().is_empty() {
            append_str(&mut line, "[");
            append_str(&mut line, state.messages[idx].timestamp.as_str());
            append_str(&mut line, "] ");
        }
        append_str(&mut line, state.messages[idx].author.as_str());
        append_str(&mut line, ": ");
        append_str(&mut line, state.messages[idx].body.as_str());
        proof {
            assert(line@ =~= spec_message_line(
                state.message_view.cursor,
                state.message_view.selected_ids@,
                state.message_view.search.matches@,
                state.messages@[idx as int],
                idx as int,
            ));
        }
        out.push(line);
        idx = idx + 1;
    }
    out
}

/// The scroll offset the renderer uses: clamped into the line count and the
/// width of the widget's own scroll field.
pub fn message_scroll(state: &UiState) -> (r: u16)
    ensures
        state.messages@.len() == 0 ==> r == 0,
        state.messages@.len() > 0 ==> r as int == {
            let clamped = if state.message_view.scroll_offset as int <= state.messages@.len() - 1 {
                state.message_view.scroll_offset as int
            } else {
                state.messages@.len() - 1
            };
            if clamped <= u16::MAX as int {
                clamped
            } else {
                u16::MAX as int
            }
        },
{
    let n = state.messages.len();
    if n == 0 {
        return 0;
    }
    let max_line = n - 1;
    let clamped = if state.message_view.scroll_offset <= max_line {
        state.message_view.scroll_offset
    } else {
        max_line
    };
    if clamped <= u16::MAX as usize {
        clamped as u16
    } else {
        u16::MAX
    }
}

} // verus!

//! Keyboard dispatch over the interactive surface: focus cycling, chat and
//! message cursor movement, paging, selection toggling, and in-view search.

use vstd::prelude::*;

use crate::input::{handle_key, InputState, KeyCode, KeyInput};
use crate::view::{ChatListItem, UiFocus, UiState};

verus! {

/// Which keymap the bindings follow.
#[derive(Debug, Clone, Copy, PartialEq, Eq, Structural)]
pub enum KeymapStyle {
    Vim,
    Vscode,
}

impl Default for KeymapStyle {
    fn default() -> (r: Self)
        ensures
            r == KeymapStyle::Vscode,
    {
        KeymapStyle::Vscode
    }
}

/// First selected row of a chat list, or -1 when none is selected.
pub open spec fn spec_selected_index(cs: Seq<ChatListItem>) -> int
    decreases cs.len(),
{
    if cs.len() == 0 {
        -1
    } else if cs[0].is_selected {
        0
    } else {
        let r = spec_selected_index(cs.drop_first());
        if r < 0 {
            -1
        } else {
            r + 1
        }
    }
}

proof fn lemma_selected_index_props(cs: Seq<ChatListItem>)
    ensures
        spec_selected_index(cs) >= 0 ==> {
            &&& spec_selected_index(cs) < cs.len()
            &&& cs[spec_selected_index(cs)].is_selected
            &&& forall|j: int| 0 <= j < spec_selected_index(cs) ==> !(#[trigger] cs[j]).is_selected
        },
        spec_selected_index(cs) < 0 ==> forall|j: int|
            0 <= j < cs.len() ==> !(#[trigger] cs[j]).is_selected,
    decreases cs.len(),
{
    if cs.len() > 0 && !cs[0].is_selected {
        lemma_selected_index_props(cs.drop_first());
        assert(forall|j: int| 0 < j < cs.len() ==> cs[j] == cs.drop_first()[j - 1]);
    }
}

proof fn lemma_selected_index_of_first(cs: Seq<ChatListItem>, i: int)
    requires
        0 <= i < cs.len(),
        cs[i].is_selected,
        forall|j: int| 0 <= j < i ==> !(#[trigger] cs[j]).is_selected,
    ensures
        spec_selected_index(cs) == i,
{
    lemma_selected_index_props(cs);
    let r = spec_selected_index(cs);
    if r < 0 {
        assert(!cs[i].is_selected);
    } else if r < i {
        assert(!cs[r].is_selected);
    } else if r > i {
        assert(!cs[i].is_selected);
    }
}

proof fn lemma_selected_index_absent(cs: Seq<ChatListItem>)
    requires
        forall|j: int| 0 <= j < cs.len() ==> !(#[trigger] cs[j]).is_selected,
    ensures
        spec_selected_index(cs) < 0,
{
    lemma_selected_index_props(cs);
    let r = spec_selected_index(cs);
    if r >= 0 {
        assert(!cs[r].is_selected);
    }
}

/// A position clamped into `[0, max]` after a signed step.
pub open spec fn spec_step_clamped(current: int, delta: int, max: int) -> int {
    if current + delta < 0 {
        0
    } else if current + delta > max {
        max
    } else {
        current + delta
    }
}

/// Rotates the focus: chats, messages, composer, back to chats; search hands
/// back to messages.
pub fn cycle_focus(state: &mut UiState)
    requires
        old(state).wf(),
    ensures
        final(state).wf(),
        final(state).focus == match old(state).focus {
            UiFocus::Chats => UiFocus::Messages,
            UiFocus::Messages => UiFocus::Composer,
            UiFocus::Composer => UiFocus::Chats,
            UiFocus::Search => UiFocus::Messages,
        },
        final(state).input == old(state).input,
        final(state).chats@ == old(state).chats@,
        final(state).messages@ == old(state).messages@,
        final(state).message_view == old(state).message_view,
{
    state.focus = match state.focus {
        UiFocus::Chats => UiFocus::Messages,
        UiFocus::Messages => UiFocus::Composer,
        UiFocus::Composer => UiFocus::Chats,
        UiFocus::Search => UiFocus::Messages,
    };
}

/// Moves the message cursor by a signed step, clamped to the list, and keeps
/// it visible; a missing cursor starts from the last message.
pub fn move_message_cursor(state: &mut UiState, delta: i32) -> (handled: bool)
    requires
        old(state).wf(),
    ensures
        final(state).wf(),
        final(state).focus == old(state).focus,
        final(state).chats@ == old(state).chats@,
        final(state).messages@ == old(state).messages@,
        final(state).input == old(state).input,
        old(state).messages@.len() == 0 ==> !handled && final(state).message_view == old(
            state,
        ).message_view,
        old(state).messages@.len() > 0 ==> handled && final(state).message_view.cursor == Some(
            spec_step_clamped(
                match old(state).message_view.cursor {
                    Some(c) => c as int,
                    None => old(state).messages@.len() - 1,
                },
                delta as int,
                old(state).messages@.len() - 1,
            ) as usize,
        ),
{
    let n = state.messages.len();
    if n == 0 {
        return false;
    }
    let max_index = n - 1;
    let current: usize = match state.message_view.cursor {
        Some(c) => c,
        None => max_index,
    };
    let stepped: i128 = current as i128 + delta as i128;
    let next: usize = if stepped < 0 {
        0
    } else if stepped > max_index as i128 {
        max_index
    } else {
        stepped as usize
    };
    state.message_view.cursor = Some(next);
    ensure_cursor_visible(state);
    true
}

/// Jumps the message cursor to an absolute position, clamped to the list.
pub fn jump_message_cursor(state: &mut UiState, index: usize) -> (handled: bool)
    requires
        old(state).wf(),
    ensures
        final(state).wf(),
        final(state).focus == old(state).focus,
        final(state).chats@ == old(state).chats@,
        final(state).messages@ == old(state).messages@,
        final(state).input == old(state).input,
        old(state).messages@.len() == 0 ==> !handled && final(state).message_view == old(
            state,
        ).message_view,
        old(state).messages@.len() > 0 ==> handled && final(state).message_view.cursor == Some(
            (
            if index as int <= old(state).messages@.len() - 1 {
                index as int
            } else {
                old(state).messages@.len() - 1
            }) as usize,
        ),
{
    let n = state.messages.len();
    if n == 0 {
        return false;
    }
    let max_index = n - 1;
    let next = if index < max_index {
        index
    } else {
        max_index
    };
    state.message_view.cursor = Some(next);
    ensure_cursor_visible(state);
    true
}

/// Jumps the message cursor to the last message.
pub fn jump_message_cursor_to_end(state: &mut UiState) -> (handled: bool)
    requires
        old(state).wf(),
    ensures
        final(state).wf(),
        final(state).focus == old(state).focus,
        final(state).chats@ == old(state).chats@,
        final(state).messages@ == old(state).messages@,
        final(state).input == old(state).input,
        old(state).messages@.len() == 0 ==> !handled && final(state).message_view == old(
            state,
        ).message_view,
        old(state).messages@.len() > 0 ==> handled && final(state).message_view.cursor == Some(
            (old(state).messages@.len() - 1) as usize,
        ),
{
    let n = state.messages.len();
    if n == 0 {
        return false;
    }
    state.message_view.cursor = Some(n - 1);
    ensure_cursor_visible(state);
    true
}

/// Scrolls just enough that the cursor lies inside the page window.
pub fn ensure_cursor_visible(state: &mut UiState)
    requires
        old(state).wf(),
    ensures
        final(state).wf(),
        final(state).focus == old(state).focus,
        final(state).chats@ == old(state).chats@,
        final(state).messages@ == old(state).messages@,
        final(state).input == old(state).input,
        final(state).message_view.cursor == old(state).message_view.cursor,
        final(state).message_view.selected_ids@ == old(state).message_view.selected_ids@,
        final(state).message_view.search == old(state).message_view.search,
        final(state).message_view.page_size == old(state).message_view.page_size,
        ({
            let page = if old(state).message_view.page_size > 0 {
                old(state).message_view.page_size as int
            } else {
                1int
            };
            match old(state).message_view.cursor {
                Some(cursor) => final(state).message_view.scroll_offset == (
                if cursor < old(state).message_view.scroll_offset {
                    cursor as int
                } else if cursor as int >= old(state).message_view.scroll_offset + page {
                    cursor + 1 - page
                } else {
                    old(state).message_view.scroll_offset as int
                }),
                None => final(state).message_view.scroll_offset == old(
                    state,
                ).message_view.scroll_offset,
            }
        }),
{
    let cursor = match state.message_view.cursor {
        Some(c) => c,
        None => {
            return ;
        },
    };
    let messages_len = state.messages.len();
    proof {
        assert(cursor < messages_len);
    }
    let page_size = if state.message_view.page_size > 0 {
        state.message_view.page_size
    } else {
        1
    };
    let scroll = state.message_view.scroll_offset;
    if cursor < scroll {
        state.message_view.scroll_offset = cursor;
    } else if cursor - scroll >= page_size {
        state.message_view.scroll_offset = cursor + 1 - page_size;
    }
}

/// Scrolls by one page in the given direction.
pub fn scroll_page(state: &mut UiState, direction: i32) -> (handled: bool)
    requires
        old(state).wf(),
        -1 <= direction <= 1,
    ensures
        final(state).wf(),
        final(state).focus == old(state).focus,
        final(state).chats@ == old(state).chats@,
        final(state).messages@ == old(state).messages@,
        final(state).input == old(state).input,
        old(state).messages@.len() == 0 ==> !handled && final(state).message_view == old(
            state,
        ).message_view,
        old(state).messages@.len() > 0 ==> handled && final(state).message_view.scroll_offset
            == spec_step_clamped(
            old(state).message_view.scroll_offset as int,
            direction as int * (
            if old(state).message_view.page_size > 0 {
                old(state).message_view.page_size as int
            } else {
                1int
            }),
            old(state).messages@.len() - 1,
        ),
{
    let page = if state.message_view.page_size > 0 {
        state.message_view.page_size
    } else {
        1
    };
    let n = state.messages.len();
    if n == 0 {
        return false;
    }
    let max_offset: usize = n - 1;
    let page_step: i128 = if direction < 0 {
        -(page as i128)
    } else if direction == 0 {
        0
    } else {
        page as i128
    };
    let stepped: i128 = state.message_view.scroll_offset as i128 + page_step;
    let next: usize = if stepped < 0 {
        0
    } else if stepped > max_offset as i128 {
        max_offset
    } else {
        stepped as usize
    };
    state.message_view.scroll_offset = next;
    proof {
        let p: int = if old(state).message_view.page_size > 0 {
            old(state).message_view.page_size as int
        } else {
            1int
        };
        if direction == -1 {
            assert(direction as int * p == -p);
        } else if direction == 0 {
            assert(direction as int * p == 0);
        } else {
            assert(direction as int * p == p);
        }
    }
    true
}

/// Toggles the selection of the message under the cursor.
pub fn toggle_message_selection(state: &mut UiState) -> (handled: bool)
    requires
        old(state).wf(),
    ensures
        final(state).wf(),
        final(state).focus == old(state).focus,
        final(state).chats@ == old(state).chats@,
        final(state).messages@ == old(state).messages@,
        final(state).input == old(state).input,
        final(state).message_view.cursor == old(state).message_view.cursor,
        final(state).message_view.scroll_offset == old(state).message_view.scroll_offset,
        final(state).message_view.search == old(state).message_view.search,
        match old(state).message_view.cursor {
            Some(c) => if c < old(state).messages@.len() {
                handled && (crate::view::spec_ids_contain(
                    final(state).message_view.selected_ids@,
                    old(state).messages@[c as int].id,
                ) <==> !crate::view::spec_ids_contain(
                    old(state).message_view.selected_ids@,
                    old(state).messages@[c as int].id,
                ))
            } else {
                !handled
            },
            None => !handled,
        },
{
    let message_id = match state.message_view.cursor_message_id(&state.messages) {
        Some(id) => id,
        None => {
            return false;
        },
    };
    state.message_view.toggle_selection(message_id);
    true
}

/// Moves the chat selection by a signed step, clamped to the list; exactly
/// the stepped row ends up selected.
pub fn move_chat_selection(chats: &mut Vec<ChatListItem>, delta: i32)
    ensures
        final(chats)@.len() == old(chats)@.len(),
        forall|i: int|
            0 <= i < final(chats)@.len() ==> (#[trigger] final(chats)@[i]).id == old(chats)@[i].id
                && final(chats)@[i].title == old(chats)@[i].title && final(chats)@[i].unread == old(
                chats,
            )@[i].unread,
        old(chats)@.len() > 0 ==> ({
            let current = if spec_selected_index(old(chats)@) >= 0 {
                spec_selected_index(old(chats)@)
            } else {
                0int
            };
            let next = spec_step_clamped(current, delta as int, old(chats)@.len() - 1);
            forall|i: int|
                0 <= i < final(chats)@.len() ==> ((#[trigger] final(chats)@[i]).is_selected <==> i
                    == next)
        }),
{
    let n = chats.len();
    if n == 0 {
        return ;
    }
    let mut current: usize = 0;
    let mut i: usize = 0;
    let mut found = false;
    while i < n
        invariant
            i <= n,
            n == chats@.len(),
            !found ==> current == 0 && forall|j: int|
                0 <= j < i ==> !(#[trigger] chats@[j]).is_selected,
            found ==> current < i && chats@[current as int].is_selected && forall|j: int|
                0 <= j < current ==> !(#[trigger] chats@[j]).is_selected,
        decreases n - i,
    {
        if !found && chats[i].is_selected {
            found = true;
            current = i;
        }
        i = i + 1;
    }
    let ghost chats0 = chats@;
    proof {
        if found {
            lemma_selected_index_of_first(chats0, current as int);
        } else {
            lemma_selected_index_absent(chats0);
        }
    }
    let max_index = n - 1;
    let stepped: i128 = current as i128 + delta as i128;
    let next: usize = if stepped < 0 {
        0
    } else if stepped > max_index as i128 {
        max_index
    } else {
        stepped as usize
    };
    let mut k: usize = 0;
    while k < n
        invariant
            k <= n,
            n == chats@.len(),
            next < n,
            forall|j: int|
                0 <= j < chats@.len() ==> (#[trigger] chats@[j]).id == chats0[j].id && chats@[
                    j
                ].title == chats0[j].title && chats@[j].unread == chats0[j].unread,
            forall|j: int|
                0 <= j < k ==> ((#[trigger] chats@[j]).is_selected <==> j == next),
            forall|j: int| k <= j < chats@.len() ==> (#[trigger] chats@[j]) == chats0[j],
        decreases n - k,
    {
        let selected_now = k == next;
        let mut entry = chats.remove(k);
        entry.is_selected = selected_now;
        chats.insert(k, entry);
        k = k + 1;
    }
}

/// Opens the search overlay with a cleared query and hands it the focus.
pub fn open_search(state: &mut UiState) -> (handled: bool)
    requires
        old(state).wf(),
    ensures
        final(state).wf(),
        handled,
        final(state).focus == UiFocus::Search,
        final(state).message_view.search.is_open,
        final(state).message_view.search.query.text@ == Seq::<char>::empty(),
        final(state).chats@ == old(state).chats@,
        final(state).messages@ == old(state).messages@,
        final(state).input == old(state).input,
{
    state.message_view.search.is_open = true;
    state.message_view.search.query = InputState::default();
    state.message_view.search.recompute_matches(&state.messages);
    state.focus = UiFocus::Search;
    true
}

/// Steps to the next or previous search match and moves the cursor and the
/// scroll window onto it.
pub fn jump_search_match(state: &mut UiState, forward: bool) -> (handled: bool)
    requires
        old(state).wf(),
    ensures
        final(state).wf(),
        final(state).focus == old(state).focus,
        final(state).chats@ == old(state).chats@,
        final(state).messages@ == old(state).messages@,
        final(state).input == old(state).input,
        old(state).message_view.search.matches@.len() == 0 ==> !handled,
        old(state).message_view.search.matches@.len() > 0 ==> handled
            && final(state).message_view.cursor == Some(
            final(state).message_view.search.matches@[final(state).message_view.search.selected as int],
        ) && final(state).message_view.scroll_offset
            == final(state).message_view.search.matches@[final(state).message_view.search.selected as int],
{
    let match_index = state.message_view.search.advance(forward);
    match match_index {
        Some(index) => {
            state.message_view.cursor = Some(index);
            state.message_view.scroll_offset = index;
            true
        },
        None => false,
    }
}

/// Keys in the chat list: arrows (and vim j/k) move the selection, enter
/// jumps to the messages, vim i opens the composer.
pub fn handle_chats_key(state: &mut UiState, key: KeyInput, style: KeymapStyle) -> (handled: bool)
    requires
        old(state).wf(),
    ensures
        final(state).wf(),
        final(state).messages@ == old(state).messages@,
        final(state).message_view == old(state).message_view,
        final(state).input == old(state).input,
        final(state).chats@.len() == old(state).chats@.len(),
{
    match key.code {
        KeyCode::Up => {
            if !key.ctrl && !key.shift {
                move_chat_selection(&mut state.chats, -1);
                return true;
            }
            false
        },
        KeyCode::Down => {
            if !key.ctrl && !key.shift {
                move_chat_selection(&mut state.chats, 1);
                return true;
            }
            false
        },
        KeyCode::Char(c) => {
            if c == 'k' && style == KeymapStyle::Vim && !key.ctrl {
                move_chat_selection(&mut state.chats, -1);
                return true;
            }
            if c == 'j' && style == KeymapStyle::Vim && !key.ctrl {
                move_chat_selection(&mut state.chats, 1);
                return true;
            }
            if c == 'i' && style == KeymapStyle::Vim && !key.ctrl {
                state.focus = UiFocus::Composer;
                return true;
            }
            false
        },
        KeyCode::Enter => {
            if !key.ctrl && !key.shift {
                state.focus = UiFocus::Messages;
                return true;
            }
            false
        },
        _ => false,
    }
}

/// Keys in the message pane: cursor movement, paging, selection, and the
/// search bindings of the active keymap.
pub fn handle_messages_key(state: &mut UiState, key: KeyInput, style: KeymapStyle) -> (handled:
    bool)
    requires
        old(state).wf(),
    ensures
        final(state).wf(),
        final(state).messages@ == old(state).messages@,
        final(state).chats@ == old(state).chats@,
        final(state).input == old(state).input,
{
    match key.code {
        KeyCode::Char(c) => {
            if style == KeymapStyle::Vim && !key.ctrl {
                if c == 'i' {
                    state.focus = UiFocus::Composer;
                    return true;
                }
                if c == '/' {
                    return open_search(state);
                }
                if c == 'n' {
                    return jump_search_match(state, true);
                }
                if c == 'N' {
                    return jump_search_match(state, false);
                }
                if c == 'j' {
                    return move_message_cursor(state, 1);
                }
                if c == 'k' {
                    return move_message_cursor(state, -1);
                }
                if c == 'g' {
                    return jump_message_cursor(state, 0);
                }
                if c == 'G' {
                    return jump_message_cursor_to_end(state);
                }
            }
            if c == ' ' && !key.ctrl {
                return toggle_message_selection(state);
            }
            if c == 'f' && key.ctrl && style == KeymapStyle::Vscode {
                return open_search(state);
            }
            if c == 'b' && key.ctrl && style == KeymapStyle::Vim {
                return scroll_page(state, -1);
            }
            if c == 'f' && key.ctrl && style == KeymapStyle::Vim {
                return scroll_page(state, 1);
            }
            false
        },
        KeyCode::Up => {
            if !key.ctrl {
                return move_message_cursor(state, -1);
            }
            false
        },
        KeyCode::Down => {
            if !key.ctrl {
                return move_message_cursor(state, 1);
            }
            false
        },
        KeyCode::Home => {
            if !key.ctrl {
                return jump_message_cursor(state, 0);
            }
            false
        },
        KeyCode::End => {
            if !key.ctrl {
                return jump_message_cursor_to_end(state);
            }
            false
        },
        KeyCode::PageUp => {
            if !key.ctrl {
                return scroll_page(state, -1);
            }
            false
        },
        KeyCode::PageDown => {
            if !key.ctrl {
                return scroll_page(state, 1);
            }
            false
        },
        KeyCode::Function(3) => {
            let forward = !key.shift;
            jump_search_match(state, forward)
        },
        _ => false,
    }
}

/// Keys in the composer: escape (or vim control-[) returns to the messages;
/// everything else edits the line.
pub fn handle_composer_key(state: &mut UiState, key: KeyInput, style: KeymapStyle) -> (handled:
    bool)
    requires
        old(state).wf(),
    ensures
        final(state).wf(),
        final(state).messages@ == old(state).messages@,
        final(state).chats@ == old(state).chats@,
        final(state).message_view == old(state).message_view,
{
    match key.code {
        KeyCode::Esc => {
            if !key.ctrl && !key.shift {
                state.focus = UiFocus::Messages;
                return true;
            }
            handle_key(&mut state.input, key)
        },
        KeyCode::Char(c) => {
            if c == '[' && key.ctrl && style == KeymapStyle::Vim {
                state.focus = UiFocus::Messages;
                return true;
            }
            handle_key(&mut state.input, key)
        },
        _ => handle_key(&mut state.input, key),
    }
}

/// Keys in the search overlay: escape closes it, enter jumps to the selected
/// match, arrows step through matches, everything else edits the query and
/// recomputes the matches.
pub fn handle_search_key(state: &mut UiState, key: KeyInput) -> (handled: bool)
    requires
        old(state).wf(),
    ensures
        final(state).wf(),
        final(state).messages@ == old(state).messages@,
        final(state).chats@ == old(state).chats@,
        final(state).input == old(state).input,
{
    match key.code {
        KeyCode::Esc => {
            if !key.ctrl && !key.shift {
                state.message_view.search.is_open = false;
                state.focus = UiFocus::Messages;
                return true;
            }
        },
        KeyCode::Enter => {
            if !key.ctrl && !key.shift {
                let selected = state.message_view.search.selected_match();
                if let Some(match_index) = selected {
                    state.message_view.cursor = Some(match_index);
                    state.message_view.scroll_offset = match_index;
                    return true;
                }
                return false;
            }
        },
        KeyCode::Up => {
            if !key.ctrl && !key.shift {
                return jump_search_match(state, false);
            }
        },
        KeyCode::Down => {
            if !key.ctrl && !key.shift {
                return jump_search_match(state, true);
            }
        },
        _ => {},
    }
    let handled = handle_key(&mut state.message_view.search.query, key);
    if handled {
        let query_messages = &state.messages;
        state.message_view.search.recompute_matches(query_messages);
    }
    handled
}

/// Routes one key press by the focused pane; an open search grabs the focus
/// first, and a plain tab always cycles the focus.
pub fn handle_ui_key(state: &mut UiState, key: KeyInput, style: KeymapStyle) -> (handled: bool)
    requires
        old(state).wf(),
    ensures
        final(state).wf(),
        final(state).messages@ == old(state).messages@,
        final(state).chats@.len() == old(state).chats@.len(),
{
    if state.message_view.search.is_open && !matches!(state.focus, UiFocus::Search) {
        state.focus = UiFocus::Search;
    }
    if matches!(key.code, KeyCode::Tab) && !key.ctrl && !key.shift {
        cycle_focus(state);
        return true;
    }
    match state.focus {
        UiFocus::Chats => handle_chats_key(state, key, style),
        UiFocus::Messages => handle_messages_key(state, key, style),
        UiFocus::Composer => handle_composer_key(state, key, style),
        UiFocus::Search => handle_search_key(state, key),
    }
}

} // verus!

use telegram_core::cache::{CacheLimits, ChatCache, ChatPeerKind, ChatSummary};
use telegram_core::events::{ChatId, DomainEvent, MessageId, MessageNew, UserId};
use telegram_core::input::{handle_key, InputState, KeyCode, KeyInput};
use telegram_core::interaction::{handle_ui_key, KeymapStyle};
use telegram_core::projector::{format_timestamp, UiCacheBridge};
use telegram_core::view::{ChatListItem, MessageItem, UiFocus, UiState};

#[test]
fn inserts_and_moves_cursor() {
    let mut state = InputState::default();

    handle_key(&mut state, KeyInput::plain(KeyCode::Char('h')));
    handle_key(&mut state, KeyInput::plain(KeyCode::Char('i')));

    assert_eq!(state.text, "hi");
    assert_eq!(state.cursor, 2);

    handle_key(&mut state, KeyInput::plain(KeyCode::Left));
    handle_key(&mut state, KeyInput::plain(KeyCode::Char('!')));

    assert_eq!(state.text, "h!i");
    assert_eq!(state.cursor, 2);
}

#[test]
fn backspace_and_ctrl_are_handled() {
    let mut state = InputState { text: "ok".to_string(), cursor: 2 };

    handle_key(&mut state, KeyInput::plain(KeyCode::Backspace));

    assert_eq!(state.text, "o");
    assert_eq!(state.cursor, 1);

    let handled = handle_key(
        &mut state,
        KeyInput { code: KeyCode::Char('c'), ctrl: true, shift: false },
    );

    assert!(!handled);
    assert_eq!(state.text, "o");
    assert_eq!(state.cursor, 1);
}

fn sample_state() -> UiState {
    let mut state = UiState::default();
    state.messages = vec![
        MessageItem {
            id: 1,
            author: "Ada".to_string(),
            timestamp: "09:10".to_string(),
            body: "hello".to_string(),
        },
        MessageItem {
            id: 2,
            author: "You".to_string(),
            timestamp: "09:11".to_string(),
            body: "reply".to_string(),
        },
    ];
    let messages = state.messages.clone();
    state.message_view.reconcile(&messages);
    state
}

#[test]
fn vim_jk_moves_message_cursor() {
    let mut state = sample_state();
    state.focus = UiFocus::Messages;
    state.message_view.cursor = Some(0);

    handle_ui_key(&mut state, KeyInput::plain(KeyCode::Char('j')), KeymapStyle::Vim);
    assert_eq!(state.message_view.cursor, Some(1));

    handle_ui_key(&mut state, KeyInput::plain(KeyCode::Char('k')), KeymapStyle::Vim);
    assert_eq!(state.message_view.cursor, Some(0));
}

#[test]
fn vscode_arrows_move_message_cursor() {
    let mut state = sample_state();
    state.focus = UiFocus::Messages;
    state.message_view.cursor = Some(0);

    handle_ui_key(&mut state, KeyInput::plain(KeyCode::Down), KeymapStyle::Vscode);
    assert_eq!(state.message_view.cursor, Some(1));

    handle_ui_key(&mut state, KeyInput::plain(KeyCode::Up), KeymapStyle::Vscode);
    assert_eq!(state.message_view.cursor, Some(0));
}

#[test]
fn toggles_message_selection() {
    let mut state = sample_state();
    state.focus = UiFocus::Messages;
    state.message_view.cursor = Some(0);

    handle_ui_key(&mut state, KeyInput::plain(KeyCode::Char(' ')), KeymapStyle::Vscode);
    assert!(state.message_view.selected_ids.contains(&1));

    handle_ui_key(&mut state, KeyInput::plain(KeyCode::Char(' ')), KeymapStyle::Vscode);
    assert!(!state.message_view.selected_ids.contains(&1));
}

#[test]
fn opens_search_and_updates_matches() {
    let mut state = sample_state();
    state.focus = UiFocus::Messages;

    handle_ui_key(&mut state, KeyInput::plain(KeyCode::Char('/')), KeymapStyle::Vim);
    assert!(state.message_view.search.is_open);
    assert_eq!(state.focus, UiFocus::Search);

    handle_ui_key(&mut state, KeyInput::plain(KeyCode::Char('h')), KeymapStyle::Vim);
    assert_eq!(state.message_view.search.query.text, "h");
    assert_eq!(state.message_view.search.matches, vec![0]);
}

#[test]
fn chat_selection_moves_with_keys() {
    let mut state = UiState::default();
    state.focus = UiFocus::Chats;
    state.chats = vec![
        ChatListItem { id: 10, title: "General".to_string(), unread: 0, is_selected: true },
        ChatListItem { id: 11, title: "Design".to_string(), unread: 1, is_selected: false },
    ];

    handle_ui_key(&mut state, KeyInput::plain(KeyCode::Down), KeymapStyle::Vscode);

    assert!(state.chats[1].is_selected);
    assert!(!state.chats[0].is_selected);
}

fn chat_summary(chat_id: i64, title: &str, last_message_at: i64) -> ChatSummary {
    ChatSummary {
        chat_id: ChatId(chat_id),
        title: title.to_string(),
        peer_kind: ChatPeerKind::User,
        last_message_id: Some(MessageId(last_message_at)),
        last_message_at: Some(last_message_at),
        unread_count: Some(1),
    }
}

fn message_new(chat_id: i64, message_id: i64, timestamp: i64, outgoing: bool) -> MessageNew {
    MessageNew {
        chat_id: ChatId(chat_id),
        message_id: MessageId(message_id),
        author_id: UserId(42),
        timestamp,
        text: format!("message-{}", message_id),
        outgoing,
    }
}

fn wide_limits() -> CacheLimits {
    CacheLimits { max_chats: 10, max_messages_per_chat: 50, max_bytes: 0 }
}

#[test]
fn selects_most_recent_chat_when_none_selected() {
    let mut cache = ChatCache::new(wide_limits());
    cache.upsert_chat(chat_summary(1, "General", 100));
    cache.upsert_chat(chat_summary(2, "Product", 300));

    let mut bridge = UiCacheBridge::new(None);
    let summaries = cache.chat_summaries();
    let selected = bridge.refresh_chats(&summaries);

    assert_eq!(selected, Some(ChatId(2)));
    assert_eq!(bridge.state.chats.len(), 2);
    assert_eq!(bridge.state.chats[0].id, 2);
    assert!(bridge.state.chats[0].is_selected);
    assert_eq!(bridge.state.chats[0].title, "Product");
}

#[test]
fn maps_messages_for_selected_chat() {
    let mut cache = ChatCache::new(wide_limits());
    cache.upsert_chat(chat_summary(1, "General", 100));
    cache.upsert_chat(chat_summary(2, "Product", 200));
    cache.apply_event(&DomainEvent::MessageNew(message_new(1, 1, 0, false)));
    cache.apply_event(&DomainEvent::MessageNew(message_new(2, 1, 60, true)));
    cache.apply_event(&DomainEvent::MessageNew(message_new(2, 2, 120, false)));

    let mut bridge = UiCacheBridge::new(None);
    bridge.set_selected_chat(Some(ChatId(2)));
    let summaries = cache.chat_summaries();
    let selected = bridge.refresh_chats(&summaries);
    assert_eq!(selected, Some(ChatId(2)));
    let messages = cache.messages_for_chat(ChatId(2), bridge.message_limit);
    bridge.apply_messages(&messages);

    assert_eq!(bridge.state.messages.len(), 2);
    assert_eq!(bridge.state.messages[0].id, 1);
    assert_eq!(bridge.state.messages[0].author, "You");
    assert_eq!(bridge.state.messages[0].timestamp, "00:01");
    assert_eq!(bridge.state.messages[1].id, 2);
    assert_eq!(bridge.state.messages[1].author, "User 42");
    assert_eq!(bridge.state.messages[1].timestamp, "00:02");
}

#[test]
fn blank_titles_render_as_chat_ids() {
    let mut cache = ChatCache::new(wide_limits());
    cache.apply_event(&DomainEvent::MessageNew(message_new(7, 1, 30, false)));

    let mut bridge = UiCacheBridge::new(None);
    let summaries = cache.chat_summaries();
    bridge.refresh_chats(&summaries);
    assert_eq!(bridge.state.chats[0].title, "Chat 7");
}

#[test]
fn clock_renders_utc_hours_and_minutes() {
    assert_eq!(format_timestamp(0), "00:00");
    assert_eq!(format_timestamp(60), "00:01");
    assert_eq!(format_timestamp(86399), "23:59");
    assert_eq!(format_timestamp(86400), "00:00");
    assert_eq!(format_timestamp(45296), "12:34");
    // timestamps before the epoch still land on the right wall clock
    assert_eq!(format_timestamp(-60), "23:59");
}

use telegram_core::cache::{
    message_size_bytes, CacheLimits, CacheSnapshot, CachedMessage, ChatCache, ChatPeerKind,
    ChatSummary,
};
use telegram_core::events::{
    ChatId, DomainEvent, MessageEdited, MessageId, MessageNew, ReadReceipt, UserId,
};
use telegram_core::flush::{FlushCommand, FlushDirective, FlusherState};
use telegram_core::store::{decode_snapshot, encode_snapshot, CacheStore};

fn cache_limits() -> CacheLimits {
    CacheLimits { max_chats: 2, max_messages_per_chat: 3, max_bytes: 0 }
}

fn base_message(chat_id: i64, message_id: i64, timestamp: i64, text: &str) -> MessageNew {
    MessageNew {
        chat_id: ChatId(chat_id),
        message_id: MessageId(message_id),
        author_id: UserId(1),
        timestamp,
        text: text.to_string(),
        outgoing: false,
    }
}

#[test]
fn applies_message_edit_updates_text() {
    let mut cache = ChatCache::new(cache_limits());
    let new = base_message(1, 10, 100, "hello");
    cache.apply_event(&DomainEvent::MessageNew(new));

    let edit = MessageEdited {
        chat_id: ChatId(1),
        message_id: MessageId(10),
        editor_id: UserId(1),
        timestamp: 120,
        text: "updated".to_string(),
        outgoing: false,
    };
    cache.apply_event(&DomainEvent::MessageEdited(edit));

    let messages = cache.messages_for_chat(ChatId(1), None);
    assert_eq!(messages.len(), 1);
    assert_eq!(messages[0].text, "updated");
    assert_eq!(messages[0].edit_timestamp, Some(120));
}

#[test]
fn evicts_oldest_messages_and_chats() {
    let mut cache = ChatCache::new(cache_limits());
    cache.apply_event(&DomainEvent::MessageNew(base_message(1, 1, 100, "one")));
    cache.apply_event(&DomainEvent::MessageNew(base_message(1, 2, 101, "two")));
    cache.apply_event(&DomainEvent::MessageNew(base_message(1, 3, 102, "three")));
    cache.apply_event(&DomainEvent::MessageNew(base_message(1, 4, 103, "four")));

    let messages = cache.messages_for_chat(ChatId(1), None);
    assert_eq!(messages.len(), 3);
    assert_eq!(messages[0].message_id, MessageId(2));

    cache.apply_event(&DomainEvent::MessageNew(base_message(2, 1, 200, "second")));
    cache.apply_event(&DomainEvent::MessageNew(base_message(3, 1, 300, "third")));
    assert_eq!(cache.chat_count(), 2);
    let summaries = cache.chat_summaries();
    assert!(summaries.iter().any(|summary| summary.chat_id == ChatId(2)));
    assert!(summaries.iter().any(|summary| summary.chat_id == ChatId(3)));
}

#[test]
fn read_receipt_sets_unread_count() {
    let mut cache = ChatCache::new(cache_limits());
    cache.apply_event(&DomainEvent::MessageNew(base_message(1, 1, 100, "one")));
    cache.apply_event(&DomainEvent::ReadReceipt(ReadReceipt {
        chat_id: ChatId(1),
        reader_id: UserId(1),
        timestamp: 150,
        last_read_message_id: MessageId(1),
    }));
    let summary = cache
        .snapshot()
        .chats
        .into_iter()
        .find(|summary| summary.chat_id == ChatId(1))
        .expect("summary");
    assert_eq!(summary.unread_count, Some(0));
}

#[test]
fn byte_accounting_is_exact_per_event() {
    let mut cache = ChatCache::new(CacheLimits { max_chats: 0, max_messages_per_chat: 0, max_bytes: 0 });
    cache.apply_event(&DomainEvent::MessageNew(base_message(1, 1, 100, "hello")));
    // one message of 5 text bytes and one stub summary with an empty title
    assert_eq!(cache.current_bytes(), 5 + 64 + 64);

    cache.apply_event(&DomainEvent::MessageNew(base_message(1, 2, 101, "worlds")));
    assert_eq!(cache.current_bytes(), 5 + 64 + 6 + 64 + 64);

    // overwriting a message in place adjusts the counter by the size change
    cache.apply_event(&DomainEvent::MessageNew(base_message(1, 1, 102, "hi")));
    assert_eq!(cache.current_bytes(), 2 + 64 + 6 + 64 + 64);
}

#[test]
fn byte_budget_evicts_least_recent_chat() {
    let limits = CacheLimits { max_chats: 0, max_messages_per_chat: 0, max_bytes: 300 };
    let mut cache = ChatCache::new(limits);
    cache.apply_event(&DomainEvent::MessageNew(base_message(1, 1, 100, "aaaa")));
    cache.apply_event(&DomainEvent::MessageNew(base_message(2, 1, 200, "bbbb")));
    // each chat costs 4 + 64 + 64 = 132 bytes; both fit in 300
    assert_eq!(cache.chat_count(), 2);
    cache.apply_event(&DomainEvent::MessageNew(base_message(3, 1, 300, "cccc")));
    // three chats would cost 396, so the least recently updated chat leaves
    assert_eq!(cache.chat_count(), 2);
    let summaries = cache.chat_summaries();
    assert!(!summaries.iter().any(|summary| summary.chat_id == ChatId(1)));
    assert!(cache.current_bytes() <= 300);
}

#[test]
fn message_size_counts_text_bytes_plus_overhead() {
    let message = CachedMessage {
        chat_id: ChatId(1),
        message_id: MessageId(1),
        author_id: UserId(1),
        timestamp: 0,
        edit_timestamp: None,
        text: "hello".to_string(),
        outgoing: false,
    };
    assert_eq!(message_size_bytes(&message), 69);
}

#[test]
fn snapshot_round_trip_through_rows() {
    let snapshot = CacheSnapshot {
        chats: vec![ChatSummary {
            chat_id: ChatId(1),
            title: "Chat".to_string(),
            peer_kind: ChatPeerKind::User,
            last_message_id: Some(MessageId(2)),
            last_message_at: Some(123),
            unread_count: Some(1),
        }],
        messages: vec![CachedMessage {
            chat_id: ChatId(1),
            message_id: MessageId(2),
            author_id: UserId(1),
            timestamp: 123,
            edit_timestamp: None,
            text: "hello".to_string(),
            outgoing: true,
        }],
    };

    let (chat_rows, message_rows) = encode_snapshot(&snapshot);
    let loaded = decode_snapshot(&chat_rows, &message_rows);
    assert_eq!(loaded, snapshot);
}

#[test]
fn from_snapshot_applies_limits() {
    let snapshot = CacheSnapshot {
        chats: vec![],
        messages: vec![
            base_msg_cached(1, 1, 100, "one"),
            base_msg_cached(1, 2, 101, "two"),
            base_msg_cached(1, 3, 102, "three"),
            base_msg_cached(1, 4, 103, "four"),
        ],
    };
    let cache = ChatCache::from_snapshot(snapshot, cache_limits());
    let messages = cache.messages_for_chat(ChatId(1), None);
    assert_eq!(messages.len(), 3);
    assert_eq!(messages[0].message_id, MessageId(2));
}

fn base_msg_cached(chat_id: i64, message_id: i64, timestamp: i64, text: &str) -> CachedMessage {
    CachedMessage {
        chat_id: ChatId(chat_id),
        message_id: MessageId(message_id),
        author_id: UserId(1),
        timestamp,
        edit_timestamp: None,
        text: text.to_string(),
        outgoing: false,
    }
}

#[test]
fn debounced_flush_coalesces_updates() {
    let mut flusher = FlusherState::new();
    // two dirty marks 5 ms apart with a 20 ms debounce coalesce: the deadline
    // slides and only one save happens once it elapses
    assert_eq!(flusher.on_command(Some(FlushCommand::Dirty), 0, 20), FlushDirective::Wait);
    assert_eq!(flusher.deadline_ms, Some(20));
    assert_eq!(flusher.on_command(Some(FlushCommand::Dirty), 5, 20), FlushDirective::Wait);
    assert_eq!(flusher.deadline_ms, Some(25));
    assert_eq!(flusher.on_deadline(), FlushDirective::Save);
    assert_eq!(flusher.on_deadline(), FlushDirective::Wait);
}

#[test]
fn shutdown_flushes_once_when_dirty() {
    let mut flusher = FlusherState::new();
    assert_eq!(flusher.on_command(Some(FlushCommand::Shutdown), 0, 20), FlushDirective::Stop);
    let _ = flusher.on_command(Some(FlushCommand::Dirty), 1, 20);
    assert_eq!(flusher.on_command(Some(FlushCommand::Shutdown), 2, 20), FlushDirective::SaveAndStop);
    // channel closure behaves like shutdown
    let mut closed = FlusherState::new();
    let _ = closed.on_command(Some(FlushCommand::Dirty), 0, 20);
    assert_eq!(closed.on_command(None, 1, 20), FlushDirective::SaveAndStop);
}

#[test]
fn messages_for_chat_honors_limit() {
    let mut cache = ChatCache::new(CacheLimits { max_chats: 0, max_messages_per_chat: 0, max_bytes: 0 });
    cache.apply_event(&DomainEvent::MessageNew(base_message(1, 1, 100, "one")));
    cache.apply_event(&DomainEvent::MessageNew(base_message(1, 2, 101, "two")));
    cache.apply_event(&DomainEvent::MessageNew(base_message(1, 3, 102, "three")));
    let last_two = cache.messages_for_chat(ChatId(1), Some(2));
    assert_eq!(last_two.len(), 2);
    assert_eq!(last_two[0].message_id, MessageId(2));
    assert_eq!(last_two[1].message_id, MessageId(3));
    assert!(cache.messages_for_chat(ChatId(9), None).is_empty());
}

struct InMemoryStore {
    snapshots: std::cell::RefCell<Vec<CacheSnapshot>>,
}

impl InMemoryStore {
    fn new() -> Self {
        InMemoryStore { snapshots: std::cell::RefCell::new(Vec::new()) }
    }
}

impl CacheStore for InMemoryStore {
    fn load(&self) -> Result<CacheSnapshot, String> {
        Ok(self.snapshots.borrow().last().cloned().unwrap_or_default())
    }

    fn save(&self, snapshot: &CacheSnapshot) -> Result<(), String> {
        self.snapshots.borrow_mut().push(snapshot.clone());
        Ok(())
    }
}

#[test]
fn store_mutators_are_load_mutate_save() {
    let store = InMemoryStore::new();
    let summary = ChatSummary {
        chat_id: ChatId(1),
        title: "Chat".to_string(),
        peer_kind: ChatPeerKind::User,
        last_message_id: None,
        last_message_at: Some(5),
        unread_count: None,
    };
    store.upsert_chat(&summary).expect("upsert chat");
    let message = base_msg_cached(1, 2, 5, "hello");
    store.upsert_message(&message).expect("upsert message");
    let loaded = store.load().expect("load");
    assert_eq!(loaded.chats.len(), 1);
    assert_eq!(loaded.messages.len(), 1);

    store.delete_message(ChatId(1), MessageId(2)).expect("delete");
    assert!(store.load().expect("load").messages.is_empty());

    store.clear().expect("clear");
    let empty = store.load().expect("load");
    assert!(empty.chats.is_empty());
    assert!(empty.messages.is_empty());
}

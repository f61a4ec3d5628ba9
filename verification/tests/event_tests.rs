use telegram_core::bus::{BusSubscriber, EventBus, RecvOutcome};
use telegram_core::updates::{pump_step, UpdateEvent};
use telegram_core::events::{
    ChatId, DomainEvent, EventMapper, MessageId, RawMessage, RawMessageKind, RawPeer, RawUpdate,
    ReadReceipt, Typing, UserId,
};

fn peer_user(user_id: i64) -> RawPeer {
    RawPeer::User { user_id }
}

fn base_message(user_id: i64, chat_user_id: i64, message_id: i32, date: i32, text: &str) -> RawMessage {
    RawMessage {
        out: false,
        id: message_id,
        from_id: Some(peer_user(user_id)),
        peer_id: peer_user(chat_user_id),
        date,
        edit_date: None,
        text: text.to_string(),
    }
}

#[test]
fn maps_new_message_update() {
    let mapper = EventMapper::new();
    let message = base_message(1001, 1001, 42, 111, "hello");
    let update = RawUpdate::NewMessage(RawMessageKind::Message(message));

    let event = mapper.map_update(&update, 999).expect("expected domain event");
    match event {
        DomainEvent::MessageNew(payload) => {
            assert_eq!(payload.chat_id, ChatId(1001));
            assert_eq!(payload.message_id, MessageId(42));
            assert_eq!(payload.author_id, UserId(1001));
            assert_eq!(payload.timestamp, 111);
            assert_eq!(payload.text, "hello");
            assert!(!payload.outgoing);
        }
        other => panic!("unexpected event: {other:?}"),
    }
}

#[test]
fn maps_edited_message_update() {
    let mapper = EventMapper::new();
    let mut message = base_message(1002, 1002, 7, 200, "edited");
    message.edit_date = Some(250);
    let update = RawUpdate::EditMessage(RawMessageKind::Message(message));

    let event = mapper.map_update(&update, 999).expect("expected domain event");
    match event {
        DomainEvent::MessageEdited(payload) => {
            assert_eq!(payload.chat_id, ChatId(1002));
            assert_eq!(payload.message_id, MessageId(7));
            assert_eq!(payload.editor_id, UserId(1002));
            assert_eq!(payload.timestamp, 250);
            assert_eq!(payload.text, "edited");
            assert!(!payload.outgoing);
        }
        other => panic!("unexpected event: {other:?}"),
    }
}

#[test]
fn maps_read_receipt_update() {
    let mapper = EventMapper::new();
    let update = RawUpdate::ReadHistoryOutbox { peer: peer_user(2001), max_id: 77 };

    let event = mapper.map_update(&update, 444).expect("expected domain event");
    match event {
        DomainEvent::ReadReceipt(ReadReceipt { chat_id, reader_id, timestamp, last_read_message_id }) => {
            assert_eq!(chat_id, ChatId(2001));
            assert_eq!(reader_id, UserId(2001));
            assert_eq!(timestamp, 444);
            assert_eq!(last_read_message_id, MessageId(77));
        }
        other => panic!("unexpected event: {other:?}"),
    }
}

#[test]
fn maps_typing_update() {
    let mapper = EventMapper::new();
    let update = RawUpdate::UserTyping { user_id: 3001 };

    let event = mapper.map_update(&update, 321).expect("expected domain event");
    match event {
        DomainEvent::Typing(Typing { chat_id, user_id, timestamp }) => {
            assert_eq!(chat_id, ChatId(3001));
            assert_eq!(user_id, UserId(3001));
            assert_eq!(timestamp, 321);
        }
        other => panic!("unexpected event: {other:?}"),
    }
}

#[test]
fn ignores_unsupported_updates() {
    let mapper = EventMapper::new();
    assert!(mapper.map_update(&RawUpdate::Unsupported, 1).is_none());
}

#[test]
fn folds_group_and_channel_dialog_ids() {
    let mapper = EventMapper::new();
    let group_message = RawMessage {
        out: false,
        id: 5,
        from_id: Some(peer_user(7)),
        peer_id: RawPeer::Chat { chat_id: 42 },
        date: 10,
        edit_date: None,
        text: "in a group".to_string(),
    };
    let event = mapper
        .map_update(&RawUpdate::NewMessage(RawMessageKind::Message(group_message)), 1)
        .expect("expected domain event");
    match event {
        DomainEvent::MessageNew(payload) => assert_eq!(payload.chat_id, ChatId(-42)),
        other => panic!("unexpected event: {other:?}"),
    }

    let channel_message = RawMessage {
        out: false,
        id: 6,
        from_id: Some(peer_user(7)),
        peer_id: RawPeer::Channel { channel_id: 42 },
        date: 10,
        edit_date: None,
        text: "in a channel".to_string(),
    };
    let event = mapper
        .map_update(&RawUpdate::NewMessage(RawMessageKind::Message(channel_message)), 1)
        .expect("expected domain event");
    match event {
        DomainEvent::MessageNew(payload) => assert_eq!(payload.chat_id, ChatId(-1_000_000_000_042)),
        other => panic!("unexpected event: {other:?}"),
    }
}

#[test]
fn drops_messages_without_user_author() {
    let mapper = EventMapper::new();
    let message = RawMessage {
        out: false,
        id: 5,
        from_id: None,
        peer_id: RawPeer::Chat { chat_id: 42 },
        date: 10,
        edit_date: None,
        text: "anonymous".to_string(),
    };
    assert!(mapper.map_update(&RawUpdate::NewMessage(RawMessageKind::Message(message)), 1).is_none());
    let receipt = RawUpdate::ReadHistoryOutbox { peer: RawPeer::Chat { chat_id: 42 }, max_id: 3 };
    assert!(mapper.map_update(&receipt, 1).is_none());
}

fn typing_event(n: i64) -> DomainEvent {
    DomainEvent::Typing(Typing { chat_id: ChatId(n), user_id: UserId(n), timestamp: n })
}

#[test]
fn drops_oldest_when_buffer_full() {
    let mut bus = EventBus::new(2);
    let mut receiver: BusSubscriber = bus.subscribe();

    bus.send(typing_event(1));
    bus.send(typing_event(2));
    bus.send(typing_event(3));

    match bus.recv(&mut receiver) {
        RecvOutcome::Lagged(_) => {}
        other => panic!("expected lagged receiver outcome, got: {other:?}"),
    }
}

#[test]
fn warns_on_lagged_subscriber() {
    let mut bus = EventBus::new(1);
    let mut receiver: BusSubscriber = bus.subscribe();

    bus.send(typing_event(10));
    bus.send(typing_event(11));

    match bus.recv(&mut receiver) {
        RecvOutcome::Lagged(skipped) => assert_eq!(skipped, 1),
        other => panic!("expected lagged receiver outcome, got: {other:?}"),
    }

    match bus.recv(&mut receiver) {
        RecvOutcome::Event(index) => match bus.event_at(index) {
            DomainEvent::Typing(payload) => assert_eq!(payload.chat_id, ChatId(11)),
            other => panic!("unexpected event: {other:?}"),
        },
        other => panic!("expected next event, got: {other:?}"),
    }

    match bus.recv(&mut receiver) {
        RecvOutcome::Empty => {}
        other => panic!("expected an empty receive, got: {other:?}"),
    }
}

#[test]
fn update_pump_forwards_events() {
    let outcomes: Vec<Result<&'static str, &'static str>> = vec![Ok("one"), Ok("two"), Err("boom")];
    let mut forwarded: Vec<UpdateEvent<&'static str, &'static str>> = Vec::new();
    for outcome in outcomes {
        let (event, keep_running) = pump_step(outcome);
        forwarded.push(event);
        if !keep_running {
            break;
        }
    }
    assert_eq!(forwarded[0], UpdateEvent::Update("one"));
    assert_eq!(forwarded[1], UpdateEvent::Update("two"));
    assert_eq!(forwarded[2], UpdateEvent::Error("boom"));
}

//! Identifiers and domain events, plus the pure mapper that turns raw
//! transport updates into domain events.
//!
//! The raw update model mirrors exactly the fields of the transport's update
//! variants that the mapper reads; the shell around the library converts the
//! wire types into this model before calling in.

use vstd::prelude::*;

verus! {

/// Identifier of a dialog (user, group or channel folded into one signed
/// 64-bit space).
#[derive(Debug, Clone, Copy, PartialEq, Eq, Hash, Structural)]
pub struct ChatId(pub i64);

/// Identifier of a message within a chat.
#[derive(Debug, Clone, Copy, PartialEq, Eq, Hash, Structural)]
pub struct MessageId(pub i64);

/// Identifier of a user account.
#[derive(Debug, Clone, Copy, PartialEq, Eq, Hash, Structural)]
pub struct UserId(pub i64);

/// A message newly arrived in a chat.
#[derive(Debug, Clone, PartialEq, Eq)]
pub struct MessageNew {
    pub chat_id: ChatId,
    pub message_id: MessageId,
    pub author_id: UserId,
    pub timestamp: i64,
    pub text: String,
    pub outgoing: bool,
}

/// An existing message whose text was edited.
#[derive(Debug, Clone, PartialEq, Eq)]
pub struct MessageEdited {
    pub chat_id: ChatId,
    pub message_id: MessageId,
    pub editor_id: UserId,
    pub timestamp: i64,
    pub text: String,
    pub outgoing: bool,
}

/// A reader confirmed messages up to `last_read_message_id`.
#[derive(Debug, Clone, PartialEq, Eq)]
pub struct ReadReceipt {
    pub chat_id: ChatId,
    pub reader_id: UserId,
    pub timestamp: i64,
    pub last_read_message_id: MessageId,
}

/// Someone is typing in a chat.
#[derive(Debug, Clone, PartialEq, Eq)]
pub struct Typing {
    pub chat_id: ChatId,
    pub user_id: UserId,
    pub timestamp: i64,
}

/// A normalized, transport-independent mutation of the chat model.
#[derive(Debug, Clone, PartialEq, Eq)]
pub enum DomainEvent {
    MessageNew(MessageNew),
    MessageEdited(MessageEdited),
    ReadReceipt(ReadReceipt),
    Typing(Typing),
}

/// The peer a raw update talks about, with the bare identifier the wire
/// carries for each peer class.
#[derive(Debug, Clone, Copy, PartialEq, Eq, Structural)]
pub enum RawPeer {
    User { user_id: i64 },
    Chat { chat_id: i64 },
    Channel { channel_id: i64 },
}

/// The fields of a plain raw message that the mapper reads.
#[derive(Debug, Clone, PartialEq, Eq)]
pub struct RawMessage {
    /// True when the local account authored the message.
    pub out: bool,
    pub id: i32,
    pub from_id: Option<RawPeer>,
    pub peer_id: RawPeer,
    pub date: i32,
    pub edit_date: Option<i32>,
    pub text: String,
}

/// A raw message slot: either a plain message or a variant the mapper drops
/// (service messages, empty slots).
#[derive(Debug, Clone, PartialEq, Eq)]
pub enum RawMessageKind {
    Message(RawMessage),
    Other,
}

/// The subset of raw update variants the mapper distinguishes; everything
/// else arrives as `Unsupported` and is dropped.
#[derive(Debug, Clone, PartialEq, Eq)]
pub enum RawUpdate {
    NewMessage(RawMessageKind),
    NewChannelMessage(RawMessageKind),
    EditMessage(RawMessageKind),
    EditChannelMessage(RawMessageKind),
    ReadHistoryOutbox { peer: RawPeer, max_id: i32 },
    UserTyping { user_id: i64 },
    Unsupported,
}

/// The bare identifier ranges the transport documents for each peer class.
pub open spec fn peer_in_range(p: RawPeer) -> bool {
    match p {
        RawPeer::User { user_id } => 1 <= user_id <= 0xff_ffff_ffff,
        RawPeer::Chat { chat_id } => 1 <= chat_id <= 999_999_999_999,
        RawPeer::Channel { channel_id } => (1 <= channel_id <= 997_852_516_352)
            || (1_002_147_483_649 <= channel_id <= 3_000_000_000_000),
    }
}

/// Folds a peer into the signed 64-bit dialog-id space: users keep their
/// identifier, groups are negated, channels are shifted below -10^12.
pub open spec fn spec_dialog_id(p: RawPeer) -> int {
    match p {
        RawPeer::User { user_id } => user_id as int,
        RawPeer::Chat { chat_id } => -(chat_id as int),
        RawPeer::Channel { channel_id } => -(1_000_000_000_000 + channel_id as int),
    }
}

pub open spec fn message_in_range(m: RawMessage) -> bool {
    &&& peer_in_range(m.peer_id)
    &&& (m.from_id matches Some(p) ==> peer_in_range(p))
}

pub open spec fn message_kind_in_range(k: RawMessageKind) -> bool {
    k matches RawMessageKind::Message(m) ==> message_in_range(m)
}

/// Every peer the update mentions lies in its documented range.
pub open spec fn update_in_range(u: RawUpdate) -> bool {
    match u {
        RawUpdate::NewMessage(k) => message_kind_in_range(k),
        RawUpdate::NewChannelMessage(k) => message_kind_in_range(k),
        RawUpdate::EditMessage(k) => message_kind_in_range(k),
        RawUpdate::EditChannelMessage(k) => message_kind_in_range(k),
        RawUpdate::ReadHistoryOutbox { peer, .. } => peer_in_range(peer),
        RawUpdate::UserTyping { user_id } => 1 <= user_id <= 0xff_ffff_ffff,
        RawUpdate::Unsupported => true,
    }
}

/// Tests one peer against its documented range, executably.
pub fn peer_in_range_check(p: &RawPeer) -> (r: bool)
    ensures
        r == peer_in_range(*p),
{
    match p {
        RawPeer::User { user_id } => 1 <= *user_id && *user_id <= 0xff_ffff_ffff,
        RawPeer::Chat { chat_id } => 1 <= *chat_id && *chat_id <= 999_999_999_999,
        RawPeer::Channel { channel_id } => (1 <= *channel_id && *channel_id <= 997_852_516_352)
            || (1_002_147_483_649 <= *channel_id && *channel_id <= 3_000_000_000_000),
    }
}

fn message_kind_in_range_check(k: &RawMessageKind) -> (r: bool)
    ensures
        r == message_kind_in_range(*k),
{
    match k {
        RawMessageKind::Message(m) => {
            let from_ok = match &m.from_id {
                Some(p) => peer_in_range_check(p),
                None => true,
            };
            peer_in_range_check(&m.peer_id) && from_ok
        },
        RawMessageKind::Other => true,
    }
}

/// Tests every peer an update mentions against its documented range; the
/// guard a caller uses to discharge `map_update`'s precondition, dropping
/// out-of-range updates.
pub fn update_in_range_check(u: &RawUpdate) -> (r: bool)
    ensures
        r == update_in_range(*u),
{
    match u {
        RawUpdate::NewMessage(k) => message_kind_in_range_check(k),
        RawUpdate::NewChannelMessage(k) => message_kind_in_range_check(k),
        RawUpdate::EditMessage(k) => message_kind_in_range_check(k),
        RawUpdate::EditChannelMessage(k) => message_kind_in_range_check(k),
        RawUpdate::ReadHistoryOutbox { peer, .. } => peer_in_range_check(peer),
        RawUpdate::UserTyping { user_id } => 1 <= *user_id && *user_id <= 0xff_ffff_ffff,
        RawUpdate::Unsupported => true,
    }
}

/// The author peer of a raw message: its `from_id` when present, else the
/// chat peer for incoming messages, else none.
pub open spec fn spec_author_peer(m: RawMessage) -> Option<RawPeer> {
    if m.from_id is Some {
        m.from_id
    } else if !m.out {
        Some(m.peer_id)
    } else {
        None::<RawPeer>
    }
}

/// The user identifier of a peer, when the peer is a user.
pub open spec fn spec_user_id_of_peer(p: RawPeer) -> Option<UserId> {
    match p {
        RawPeer::User { user_id } => Some(UserId(user_id)),
        RawPeer::Chat { .. } => None::<UserId>,
        RawPeer::Channel { .. } => None::<UserId>,
    }
}

/// The author of a raw message, when that author is a user.
pub open spec fn spec_author_id(m: RawMessage) -> Option<UserId> {
    match spec_author_peer(m) {
        Some(p) => spec_user_id_of_peer(p),
        None => None::<UserId>,
    }
}

/// What a plain raw message maps to as a new-message event: dropped
/// when no user author can be derived.
pub open spec fn spec_map_message_new(k: RawMessageKind) -> Option<DomainEvent> {
    match k {
        RawMessageKind::Message(m) => match spec_author_id(m) {
            Some(author) => Some(
                DomainEvent::MessageNew(
                    MessageNew {
                        chat_id: ChatId(spec_dialog_id(m.peer_id) as i64),
                        message_id: MessageId(m.id as i64),
                        author_id: author,
                        timestamp: m.date as i64,
                        text: m.text,
                        outgoing: m.out,
                    },
                ),
            ),
            None => None::<DomainEvent>,
        },
        RawMessageKind::Other => None::<DomainEvent>,
    }
}

/// What a plain raw message maps to as an edit event; the timestamp is
/// the edit date when present, else the message date.
pub open spec fn spec_map_message_edited(k: RawMessageKind) -> Option<DomainEvent> {
    match k {
        RawMessageKind::Message(m) => match spec_author_id(m) {
            Some(author) => Some(
                DomainEvent::MessageEdited(
                    MessageEdited {
                        chat_id: ChatId(spec_dialog_id(m.peer_id) as i64),
                        message_id: MessageId(m.id as i64),
                        editor_id: author,
                        timestamp: match m.edit_date {
                            Some(d) => d as i64,
                            None => m.date as i64,
                        },
                        text: m.text,
                        outgoing: m.out,
                    },
                ),
            ),
            None => None::<DomainEvent>,
        },
        RawMessageKind::Other => None::<DomainEvent>,
    }
}

/// The full mapping table from raw updates to domain events.
pub open spec fn spec_map_update(u: RawUpdate, state_timestamp: i64) -> Option<DomainEvent> {
    match u {
        RawUpdate::NewMessage(k) => spec_map_message_new(k),
        RawUpdate::NewChannelMessage(k) => spec_map_message_new(k),
        RawUpdate::EditMessage(k) => spec_map_message_edited(k),
        RawUpdate::EditChannelMessage(k) => spec_map_message_edited(k),
        RawUpdate::ReadHistoryOutbox { peer, max_id } => match spec_user_id_of_peer(peer) {
            Some(reader) => Some(
                DomainEvent::ReadReceipt(
                    ReadReceipt {
                        chat_id: ChatId(spec_dialog_id(peer) as i64),
                        reader_id: reader,
                        timestamp: state_timestamp,
                        last_read_message_id: MessageId(max_id as i64),
                    },
                ),
            ),
            None => None::<DomainEvent>,
        },
        RawUpdate::UserTyping { user_id } => Some(
            DomainEvent::Typing(
                Typing { chat_id: ChatId(user_id), user_id: UserId(user_id), timestamp: state_timestamp },
            ),
        ),
        RawUpdate::Unsupported => None::<DomainEvent>,
    }
}

/// Pure, stateless mapping from raw updates to domain events.
#[derive(Debug, Default, Clone, Copy)]
pub struct EventMapper;

impl EventMapper {
    pub fn new() -> (r: Self) {
        EventMapper
    }

    /// Folds a peer into the dialog-id space shared by all peer classes.
    pub fn dialog_id(peer: &RawPeer) -> (r: i64)
        requires
            peer_in_range(*peer),
        ensures
            r == spec_dialog_id(*peer),
    {
        match peer {
            RawPeer::User { user_id } => *user_id,
            RawPeer::Chat { chat_id } => -*chat_id,
            RawPeer::Channel { channel_id } => -(1_000_000_000_000 + *channel_id),
        }
    }

    fn user_id_from_peer(peer: &RawPeer) -> (r: Option<UserId>)
        ensures
            r == spec_user_id_of_peer(*peer),
    {
        match peer {
            RawPeer::User { user_id } => Some(UserId(*user_id)),
            RawPeer::Chat { .. } => None,
            RawPeer::Channel { .. } => None,
        }
    }

    fn map_message_new(&self, kind: &RawMessageKind) -> (r: Option<DomainEvent>)
        requires
            message_kind_in_range(*kind),
        ensures
            r == spec_map_message_new(*kind),
    {
        let fields = match self.parse_message(kind) {
            Some(fields) => fields,
            None => {
                return None;
            },
        };
        Some(
            DomainEvent::MessageNew(
                MessageNew {
                    chat_id: fields.chat_id,
                    message_id: fields.message_id,
                    author_id: fields.author_id,
                    timestamp: fields.date,
                    text: fields.text,
                    outgoing: fields.outgoing,
                },
            ),
        )
    }

    fn map_message_edited(&self, kind: &RawMessageKind) -> (r: Option<DomainEvent>)
        requires
            message_kind_in_range(*kind),
        ensures
            r == spec_map_message_edited(*kind),
    {
        let fields = match self.parse_message(kind) {
            Some(fields) => fields,
            None => {
                return None;
            },
        };
        let timestamp = match fields.edit_date {
            Some(d) => d,
            None => fields.date,
        };
        Some(
            DomainEvent::MessageEdited(
                MessageEdited {
                    chat_id: fields.chat_id,
                    message_id: fields.message_id,
                    editor_id: fields.author_id,
                    timestamp,
                    text: fields.text,
                    outgoing: fields.outgoing,
                },
            ),
        )
    }

    fn map_read_receipt(&self, peer: &RawPeer, max_id: i32, timestamp: i64) -> (r: Option<
        DomainEvent,
    >)
        requires
            peer_in_range(*peer),
        ensures
            r == spec_map_update(
                RawUpdate::ReadHistoryOutbox { peer: *peer, max_id },
                timestamp,
            ),
    {
        let reader_id = match Self::user_id_from_peer(peer) {
            Some(user_id) => user_id,
            None => {
                return None;
            },
        };
        Some(
            DomainEvent::ReadReceipt(
                ReadReceipt {
                    chat_id: ChatId(Self::dialog_id(peer)),
                    reader_id,
                    timestamp,
                    last_read_message_id: MessageId(max_id as i64),
                },
            ),
        )
    }

    fn parse_message(&self, kind: &RawMessageKind) -> (r: Option<ParsedMessage>)
        requires
            message_kind_in_range(*kind),
        ensures
            match *kind {
                RawMessageKind::Message(m) => match spec_author_id(m) {
                    Some(author) => r matches Some(p) && p.chat_id == ChatId(
                        spec_dialog_id(m.peer_id) as i64,
                    ) && p.message_id == MessageId(m.id as i64) && p.author_id == author
                        && p.date == m.date as i64 && p.edit_date == spec_edit_date(m.edit_date)
                        && p.text == m.text && p.outgoing == m.out,
                    None => r is None,
                },
                RawMessageKind::Other => r is None,
            },
    {
        match kind {
            RawMessageKind::Message(message) => {
                let chat_id = ChatId(Self::dialog_id(&message.peer_id));
                let author_peer = match &message.from_id {
                    Some(peer) => Some(*peer),
                    None => if message.out {
                        None
                    } else {
                        Some(message.peer_id)
                    },
                };
                let author_id = match author_peer {
                    Some(peer) => match Self::user_id_from_peer(&peer) {
                        Some(user_id) => user_id,
                        None => {
                            return None;
                        },
                    },
                    None => {
                        return None;
                    },
                };
                let edit_date = match message.edit_date {
                    Some(d) => Some(d as i64),
                    None => None,
                };
                Some(
                    ParsedMessage {
                        chat_id,
                        message_id: MessageId(message.id as i64),
                        author_id,
                        date: message.date as i64,
                        edit_date,
                        text: message.text.clone(),
                        outgoing: message.out,
                    },
                )
            },
            RawMessageKind::Other => None,
        }
    }

    /// Maps one raw update; unsupported variants and messages without a
    /// user author never propagate.
    pub fn map_update(&self, update: &RawUpdate, state_timestamp: i64) -> (r: Option<DomainEvent>)
        requires
            update_in_range(*update),
        ensures
            r == spec_map_update(*update, state_timestamp),
    {
        match update {
            RawUpdate::NewMessage(kind) => self.map_message_new(kind),
            RawUpdate::NewChannelMessage(kind) => self.map_message_new(kind),
            RawUpdate::EditMessage(kind) => self.map_message_edited(kind),
            RawUpdate::EditChannelMessage(kind) => self.map_message_edited(kind),
            RawUpdate::ReadHistoryOutbox { peer, max_id } => self.map_read_receipt(
                peer,
                *max_id,
                state_timestamp,
            ),
            RawUpdate::UserTyping { user_id } => Some(
                DomainEvent::Typing(
                    Typing {
                        chat_id: ChatId(*user_id),
                        user_id: UserId(*user_id),
                        timestamp: state_timestamp,
                    },
                ),
            ),
            RawUpdate::Unsupported => None,
        }
    }
}

pub open spec fn spec_edit_date(d: Option<i32>) -> Option<i64> {
    match d {
        Some(v) => Some(v as i64),
        None => None::<i64>,
    }
}

struct ParsedMessage {
    chat_id: ChatId,
    message_id: MessageId,
    author_id: UserId,
    date: i64,
    edit_date: Option<i64>,
    text: String,
    outgoing: bool,
}

} // verus!

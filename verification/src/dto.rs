//! Data handed to the user interface, and the mapping from the server's wire
//! messages (held here as plain values) onto it.

use vstd::prelude::*;
use crate::history::ArchivedMessage;
use crate::text::str_eq;

verus! {

/// Returned from a login.
pub struct LoginInfo {
    pub user_id: String,
    pub device_id: String,
}

/// A channel/group summary for the sidebar.
pub struct GroupDto {
    pub id: String,
    pub name: String,
    /// `"public"`, `"private"` or `"unknown"`.
    pub kind: String,
    /// `"text"` or `"voice"`.
    pub channel_kind: String,
    pub member_count: u32,
}

/// A DM group plus the session (the contact's host) it lives on.
pub struct OpenedDm {
    pub server_id: String,
    pub group: GroupDto,
}

/// A DM conversation for the Direct Messages list, attributed to the other
/// member.
pub struct DmConversation {
    /// Session the DM lives on.
    pub server_id: String,
    /// MLS group id (UUID string).
    pub group_id: String,
    /// The other member's contact identity, hex (matches a contact id).
    pub peer_id: String,
    /// The other member's name if they are a contact, else "Unknown".
    pub peer_name: String,
    /// The other member's fingerprint.
    pub fingerprint: String,
}

/// A chat message for rendering; `timestamp_ms` is epoch milliseconds.
pub struct MessageDto {
    /// Which connected server this came from.
    pub server_id: String,
    pub id: String,
    pub group_id: String,
    pub sender_id: String,
    pub sender_display_name: String,
    pub content: String,
    pub timestamp_ms: i64,
    pub sequence_number: u64,
}

/// A decrypted private (MLS) message.
pub struct PrivateMessageDto {
    pub server_id: String,
    pub group_id: String,
    pub sender_id: String,
    /// True when this session's own user sent it.
    pub mine: bool,
    pub content: String,
    pub timestamp_ms: i64,
}

/// One slot of a private group's loaded history: `None` while still being
/// decrypted.
pub struct HistoryEntry {
    pub id: String,
    pub message: Option<PrivateMessageDto>,
}

/// A history slot that has now been decrypted.
pub struct DecryptedHistory {
    pub id: String,
    pub message: PrivateMessageDto,
}

/// Whether a server's live stream is up.
pub struct ConnectionStatus {
    pub server_id: String,
    pub connected: bool,
}

/// This device joined a group from a Welcome.
pub struct JoinedGroup {
    pub server_id: String,
    pub group_id: String,
}

/// A wire timestamp.
#[derive(Clone, Copy)]
pub struct Timestamp {
    pub seconds: i64,
    pub nanos: i32,
}

/// A group summary as the server sends it.
pub struct GroupSummary {
    pub group_id: Option<String>,
    pub name: String,
    /// 1 = public, 2 = private.
    pub kind: i32,
    pub channel_kind: String,
    pub member_count: u32,
}

/// A public message as the server sends it.
pub struct IncomingPublicMessage {
    pub message_id: Option<String>,
    pub group_id: Option<String>,
    pub sender_id: Option<String>,
    pub sender_display_name: String,
    pub content: String,
    pub timestamp: Option<Timestamp>,
    pub sequence_number: u64,
}

/// Division rounding toward zero, as Rust's `/` does.
pub open spec fn trunc_div(a: int, b: int) -> int {
    if a >= 0 {
        a / b
    } else {
        -((-a) / b)
    }
}

/// Epoch milliseconds of a timestamp (0 when absent).
pub open spec fn timestamp_ms_spec(t: Option<Timestamp>) -> int {
    match t {
        Some(t) => t.seconds * 1000 + trunc_div(t.nanos as int, 1_000_000),
        None => 0,
    }
}

/// Whether a timestamp's milliseconds fit in an `i64`.
pub open spec fn timestamp_fits(t: Option<Timestamp>) -> bool {
    match t {
        Some(t) => i64::MIN <= t.seconds * 1000 <= i64::MAX && i64::MIN <= timestamp_ms_spec(
            Some(t),
        ) <= i64::MAX,
        None => true,
    }
}

/// Epoch milliseconds of a wire timestamp, 0 when it is absent.
pub fn timestamp_ms(t: Option<Timestamp>) -> (ms: i64)
    requires
        timestamp_fits(t),
    ensures
        ms == timestamp_ms_spec(t),
{
    match t {
        Some(t) => {
            let n = t.nanos as i64;
            let q: i64 = if n >= 0 {
                n / 1_000_000
            } else {
                -((-n) / 1_000_000)
            };
            t.seconds * 1000 + q
        },
        None => 0,
    }
}

/// An optional id, empty when absent.
pub open spec fn id_or_empty(o: Option<String>) -> Seq<char> {
    match o {
        Some(s) => s@,
        None => Seq::empty(),
    }
}

/// The id carried by an optional wire id, empty when absent.
pub fn id_value(o: Option<String>) -> (s: String)
    ensures
        s@ == id_or_empty(o),
{
    match o {
        Some(s) => s,
        None => String::new(),
    }
}

/// The name of a chat kind: 1 public, 2 private, anything else unknown.
pub open spec fn chat_kind_name(kind: i32) -> Seq<char> {
    if kind == 1 {
        "public"@
    } else if kind == 2 {
        "private"@
    } else {
        "unknown"@
    }
}

impl GroupDto {
    /// The sidebar entry for a server's group summary.
    pub fn from_summary(s: GroupSummary) -> (d: Self)
        ensures
            d.id@ == id_or_empty(s.group_id),
            d.name == s.name,
            d.kind@ == chat_kind_name(s.kind),
            d.channel_kind == s.channel_kind,
            d.member_count == s.member_count,
    {
        let kind = if s.kind == 1 {
            "public".to_owned()
        } else if s.kind == 2 {
            "private".to_owned()
        } else {
            "unknown".to_owned()
        };
        GroupDto {
            id: id_value(s.group_id),
            name: s.name,
            kind,
            channel_kind: s.channel_kind,
            member_count: s.member_count,
        }
    }
}

impl MessageDto {
    /// The rendering of an incoming public message; its server id is left
    /// empty for the owning session to fill in.
    pub fn from_incoming_public(m: IncomingPublicMessage) -> (d: Self)
        requires
            timestamp_fits(m.timestamp),
        ensures
            d.server_id@ == Seq::<char>::empty(),
            d.id@ == id_or_empty(m.message_id),
            d.group_id@ == id_or_empty(m.group_id),
            d.sender_id@ == id_or_empty(m.sender_id),
            d.sender_display_name == m.sender_display_name,
            d.content == m.content,
            d.timestamp_ms == timestamp_ms_spec(m.timestamp),
            d.sequence_number == m.sequence_number,
    {
        let timestamp_ms = timestamp_ms(m.timestamp);
        MessageDto {
            server_id: String::new(),
            id: id_value(m.message_id),
            group_id: id_value(m.group_id),
            sender_id: id_value(m.sender_id),
            sender_display_name: m.sender_display_name,
            content: m.content,
            timestamp_ms,
            sequence_number: m.sequence_number,
        }
    }
}

/// An archived message as the UI shows it, tagged with its server and whether
/// this session's own user sent it.
pub fn to_private_dto(m: ArchivedMessage, server_id: &str, own_user_id: &str) -> (d: PrivateMessageDto)
    ensures
        d.server_id@ == server_id@,
        d.group_id == m.group_id,
        d.sender_id == m.sender_id,
        d.mine == (m.sender_id@ == own_user_id@),
        d.content == m.content,
        d.timestamp_ms == m.timestamp_ms,
{
    let mine = str_eq(m.sender_id.as_str(), own_user_id);
    PrivateMessageDto {
        server_id: server_id.to_owned(),
        group_id: m.group_id,
        mine,
        sender_id: m.sender_id,
        content: m.content,
        timestamp_ms: m.timestamp_ms,
    }
}

} // verus!

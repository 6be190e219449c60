//! The per-server live stream: when to reconnect and how long to wait, and what
//! each message the server pushes turns into.

use vstd::prelude::*;
use crate::dto::{
    id_or_empty, id_value, timestamp_fits, timestamp_ms, timestamp_ms_spec, IncomingPublicMessage,
    MessageDto, PrivateMessageDto, Timestamp,
};
use crate::groups::{mls_id, uuid_parse_spec};
use crate::text::str_eq;
use crate::mls::{DecryptOutcome, MlsError};

verus! {

/// The delay before reconnect attempt `attempt`: 2 to the power
/// `min(attempt, 5)` seconds, capped at 30.
pub open spec fn backoff_spec(attempt: u32) -> u64 {
    if attempt == 0 {
        1
    } else if attempt == 1 {
        2
    } else if attempt == 2 {
        4
    } else if attempt == 3 {
        8
    } else if attempt == 4 {
        16
    } else {
        30
    }
}

/// Seconds to wait before reconnect attempt `attempt`.
pub fn reconnect_delay_secs(attempt: u32) -> (secs: u64)
    ensures
        secs == backoff_spec(attempt),
{
    let k: u32 = if attempt < 5 {
        attempt
    } else {
        5
    };
    let p: u64 = 1u64 << k;
    assert(k == 0 ==> p == 1) by (bit_vector)
        requires
            p == 1u64 << k,
    ;
    assert(k == 1 ==> p == 2) by (bit_vector)
        requires
            p == 1u64 << k,
    ;
    assert(k == 2 ==> p == 4) by (bit_vector)
        requires
            p == 1u64 << k,
    ;
    assert(k == 3 ==> p == 8) by (bit_vector)
        requires
            p == 1u64 << k,
    ;
    assert(k == 4 ==> p == 16) by (bit_vector)
        requires
            p == 1u64 << k,
    ;
    assert(k == 5 ==> p == 32) by (bit_vector)
        requires
            p == 1u64 << k,
    ;
    if p < 30 {
        p
    } else {
        30
    }
}

/// Reconnect delays lie between 1 and 30 seconds and never shrink as the
/// attempts grow.
pub proof fn lemma_backoff_bounded_monotone(a: u32, b: u32)
    ensures
        1 <= backoff_spec(a) <= 30,
        a <= b ==> backoff_spec(a) <= backoff_spec(b),
{
}

/// What happened to a server's stream since the supervisor last decided.
pub enum StreamEvent {
    /// The session has no access token yet.
    NoToken,
    /// The token could not be attached to the request.
    BadToken,
    /// The stream opened.
    Opened,
    /// The stream ended; `closed_by_ui` when the window that listens is gone.
    Ended { closed_by_ui: bool },
    /// The stream could not be opened; `unauthenticated` when the server
    /// refused the token.
    OpenFailed { unauthenticated: bool },
}

/// What the supervisor does next.
pub enum StreamAction {
    /// Wait `secs` seconds and look again, announcing nothing.
    WaitThenRetry { secs: u64 },
    /// Announce the server connected and read its messages.
    AnnounceConnected,
    /// Stop supervising this server.
    Stop,
    /// Announce the server disconnected, refresh the token first when
    /// `refresh_token`, wait `secs` seconds, then reconnect.
    Reconnect { refresh_token: bool, secs: u64 },
}

/// One decision of a server's stream supervisor: the attempt counter after the
/// event, and the action. The counter resets on a successful open and grows
/// (saturating) with each failed or ended connection.
pub fn supervisor_step(attempt: u32, event: StreamEvent) -> (r: (u32, StreamAction))
    ensures
        event is NoToken ==> r.0 == attempt && r.1 == (StreamAction::WaitThenRetry { secs: 2 }),
        event is BadToken ==> r.0 == attempt && r.1 is Stop,
        event is Opened ==> r.0 == 0 && r.1 is AnnounceConnected,
        event matches StreamEvent::Ended { closed_by_ui } && closed_by_ui ==> r.0 == attempt && r.1 is Stop,
        (event matches StreamEvent::Ended { closed_by_ui } && !closed_by_ui) ==> {
            &&& r.0 == (if attempt == u32::MAX { attempt as int } else { attempt + 1 })
            &&& r.1 == (StreamAction::Reconnect { refresh_token: false, secs: backoff_spec(r.0) })
        },
        event matches StreamEvent::OpenFailed { unauthenticated } ==> {
            &&& r.0 == (if attempt == u32::MAX { attempt as int } else { attempt + 1 })
            &&& r.1 == (StreamAction::Reconnect { refresh_token: unauthenticated, secs: backoff_spec(r.0) })
        },
{
    match event {
        StreamEvent::NoToken => (attempt, StreamAction::WaitThenRetry { secs: 2 }),
        StreamEvent::BadToken => (attempt, StreamAction::Stop),
        StreamEvent::Opened => (0, StreamAction::AnnounceConnected),
        StreamEvent::Ended { closed_by_ui } => {
            if closed_by_ui {
                (attempt, StreamAction::Stop)
            } else {
                let next = attempt.saturating_add(1);
                (next, StreamAction::Reconnect { refresh_token: false, secs: reconnect_delay_secs(next) })
            }
        },
        StreamEvent::OpenFailed { unauthenticated } => {
            let next = attempt.saturating_add(1);
            (next, StreamAction::Reconnect { refresh_token: unauthenticated, secs: reconnect_delay_secs(next) })
        },
    }
}

/// The one-time "first connection is up" signal: sent on an open while it is
/// still pending, and pending no longer once sent. Gives whether to send it now
/// and whether it is still pending afterwards.
pub fn ready_step(pending: bool, event: &StreamEvent) -> (r: (bool, bool))
    ensures
        r.0 == (pending && *event is Opened),
        r.1 == (pending && !(*event is Opened)),
{
    let opened = match event {
        StreamEvent::Opened => true,
        _ => false,
    };
    (pending && opened, pending && !opened)
}

/// Whether the ready signal is sent at each of `events`, starting pending or not.
pub open spec fn ready_sends(pending: bool, events: Seq<StreamEvent>) -> Seq<bool>
    decreases events.len(),
{
    if events.len() == 0 {
        Seq::empty()
    } else {
        seq![pending && events[0] is Opened] + ready_sends(pending && !(events[0] is Opened), events.drop_first())
    }
}

/// Over any run of stream events, starting pending, the ready signal is sent
/// exactly at the first successful open and never again.
pub proof fn lemma_ready_sent_once(pending: bool, events: Seq<StreamEvent>)
    ensures
        ready_sends(pending, events).len() == events.len(),
        forall|i: int| 0 <= i < events.len() ==> (#[trigger] ready_sends(pending, events)[i] <==> (pending
            && events[i] is Opened && forall|j: int| 0 <= j < i ==> !(events[j] is Opened))),
    decreases events.len(),
{
    if events.len() > 0 {
        let rest = events.drop_first();
        let p2 = pending && !(events[0] is Opened);
        lemma_ready_sent_once(p2, rest);
        assert forall|i: int| 0 <= i < events.len() implies (#[trigger] ready_sends(pending, events)[i] <==> (
            pending && events[i] is Opened && forall|j: int| 0 <= j < i ==> !(events[j] is Opened))) by {
            if i > 0 {
                assert(ready_sends(pending, events)[i] == ready_sends(p2, rest)[i - 1]);
                assert(rest[i - 1] == events[i]);
                if pending && events[i] is Opened && forall|j: int| 0 <= j < i ==> !(events[j] is Opened) {
                    assert forall|j: int| 0 <= j < i - 1 implies !(rest[j] is Opened) by {
                        assert(rest[j] == events[j + 1]);
                    }
                }
                if ready_sends(pending, events)[i] {
                    assert forall|j: int| 0 <= j < i implies !(events[j] is Opened) by {
                        if j > 0 {
                            assert(rest[j - 1] == events[j]);
                        }
                    }
                }
            }
        }
    }
}

/// After a connection that was up ends, the first reconnect waits 2 seconds.
pub proof fn lemma_first_retry_after_drop()
    ensures
        backoff_spec(1) == 2,
{
}

/// A voice participant change, for the UI.
pub struct VoiceParticipantDto {
    pub server_id: String,
    pub group_id: String,
    pub user_id: String,
    pub device_id: String,
    pub joined: bool,
    pub muted: bool,
    pub camera_on: bool,
    pub screen_on: bool,
}

/// A voice signalling message, for the UI.
pub struct VoiceSignalDto {
    pub server_id: String,
    pub group_id: String,
    pub from_device: String,
    /// `"offer"`, `"answer"`, `"ice"` or `"unknown"`.
    pub kind: String,
    pub data: String,
}

/// A moderation alert, for the UI.
pub struct ModAlertDto {
    pub server_id: String,
    pub actor_id: String,
    pub action: String,
    pub target: String,
    pub reason: String,
    /// `"info"`, `"warn"` or `"hostile"`.
    pub severity: String,
    pub timestamp_ms: i64,
}

/// A message the server pushes on the stream, held as plain values.
pub enum ServerPayload {
    PublicMessage(IncomingPublicMessage),
    PrivateMessage {
        group_id: Option<String>,
        sender_id: Option<String>,
        mls_ciphertext: Vec<u8>,
        timestamp: Option<Timestamp>,
    },
    WelcomeNotification { group_id: Option<String>, welcome: Vec<u8> },
    CommitNotification { group_id: Option<String>, commit: Vec<u8> },
    VoiceParticipant {
        group_id: Option<String>,
        user_id: Option<String>,
        device_id: Option<String>,
        joined: bool,
        muted: bool,
        camera_on: bool,
        screen_on: bool,
    },
    VoiceSignal { group_id: Option<String>, from_device: Option<String>, kind: i32, data: String },
    ModAlert {
        actor_id: Option<String>,
        action: String,
        target: String,
        reason: String,
        severity: i32,
        timestamp: Option<Timestamp>,
    },
    Typing,
    Presence,
}

/// What handling one pushed message takes.
pub enum Routed {
    /// Emit a public message.
    Public(MessageDto),
    /// Decrypt `ciphertext` in MLS group `mls_group`; an application message
    /// is then archived and shown (see [`received_private`]).
    Decrypt {
        group_id: String,
        mls_group: Vec<u8>,
        sender_id: String,
        ciphertext: Vec<u8>,
        timestamp_ms: i64,
    },
    /// Join the group from a Welcome, then announce `group_id` joined.
    Join { group_id: String, welcome: Vec<u8> },
    /// Apply a commit to MLS group `mls_group`.
    ApplyCommit { mls_group: Vec<u8>, commit: Vec<u8> },
    /// Emit a voice participant change.
    Participant(VoiceParticipantDto),
    /// Emit a voice signal.
    Signal(VoiceSignalDto),
    /// Emit a moderation alert.
    Alert(ModAlertDto),
    /// Nothing to do.
    Ignore,
}

/// The name of a signal kind: 1 offer, 2 answer, 3 ice, else unknown.
pub open spec fn signal_kind_name(kind: i32) -> Seq<char> {
    if kind == 1 {
        "offer"@
    } else if kind == 2 {
        "answer"@
    } else if kind == 3 {
        "ice"@
    } else {
        "unknown"@
    }
}

/// The name of a signal kind.
pub fn signal_kind(kind: i32) -> (s: String)
    ensures
        s@ == signal_kind_name(kind),
{
    if kind == 1 {
        "offer".to_owned()
    } else if kind == 2 {
        "answer".to_owned()
    } else if kind == 3 {
        "ice".to_owned()
    } else {
        "unknown".to_owned()
    }
}

/// The signal kind a name stands for (0 for an unknown name).
pub open spec fn signal_kind_code(name: Seq<char>) -> i32 {
    if name == "offer"@ {
        1
    } else if name == "answer"@ {
        2
    } else if name == "ice"@ {
        3
    } else {
        0
    }
}

/// The code of a signal kind name, as the UI sends it back (0 if unknown).
pub fn signal_kind_from_name(name: &str) -> (k: i32)
    ensures
        k == signal_kind_code(name@),
{
    if str_eq(name, "offer") {
        1
    } else if str_eq(name, "answer") {
        2
    } else if str_eq(name, "ice") {
        3
    } else {
        0
    }
}

/// Naming a known signal kind and reading the name back gives the kind.
pub proof fn lemma_signal_kind_roundtrip(kind: i32)
    requires
        1 <= kind <= 3,
    ensures
        signal_kind_code(signal_kind_name(kind)) == kind,
{
    reveal_strlit("offer");
    reveal_strlit("answer");
    reveal_strlit("ice");
    assert("offer"@ != "answer"@ && "offer"@ != "ice"@ && "answer"@ != "ice"@) by {
        assert("offer"@.len() != "ice"@.len());
        assert("answer"@.len() != "ice"@.len());
        assert("offer"@.len() != "answer"@.len());
    }
}

/// The name of a severity: 2 warn, 3 hostile, anything else info.
pub open spec fn severity_name(severity: i32) -> Seq<char> {
    if severity == 2 {
        "warn"@
    } else if severity == 3 {
        "hostile"@
    } else {
        "info"@
    }
}

/// The name of a moderation alert's severity.
pub fn severity_label(level: i32) -> (s: String)
    ensures
        s@ == severity_name(level),
{
    if level == 2 {
        "warn".to_owned()
    } else if level == 3 {
        "hostile".to_owned()
    } else {
        "info".to_owned()
    }
}

/// The MLS group of a server group id.
pub open spec fn mls_group_spec(group_id: Seq<char>) -> Seq<u8> {
    match uuid_parse_spec(group_id) {
        Some(b) => b,
        None => Seq::empty(),
    }
}

/// Whether every timestamp in a payload fits in epoch milliseconds.
pub open spec fn payload_fits(p: ServerPayload) -> bool {
    match p {
        ServerPayload::PublicMessage(m) => timestamp_fits(m.timestamp),
        ServerPayload::PrivateMessage { timestamp, .. } => timestamp_fits(timestamp),
        ServerPayload::ModAlert { timestamp, .. } => timestamp_fits(timestamp),
        _ => true,
    }
}

/// What one pushed message from `server_id` turns into.
pub fn route(server_id: &str, payload: ServerPayload) -> (r: Routed)
    requires
        payload_fits(payload),
    ensures
        payload is PublicMessage ==> (r matches Routed::Public(d) && {
            let m = payload->0;
            &&& d.server_id@ == server_id@
            &&& d.id@ == id_or_empty(m.message_id)
            &&& d.group_id@ == id_or_empty(m.group_id)
            &&& d.sender_id@ == id_or_empty(m.sender_id)
            &&& d.sender_display_name == m.sender_display_name
            &&& d.content == m.content
            &&& d.timestamp_ms == timestamp_ms_spec(m.timestamp)
            &&& d.sequence_number == m.sequence_number
        }),
        payload matches ServerPayload::PrivateMessage { group_id, sender_id, mls_ciphertext, timestamp }
            ==> (r matches Routed::Decrypt { group_id: g, mls_group, sender_id: s, ciphertext, timestamp_ms } && {
            &&& g@ == id_or_empty(group_id)
            &&& mls_group@ == mls_group_spec(id_or_empty(group_id))
            &&& s@ == id_or_empty(sender_id)
            &&& ciphertext == mls_ciphertext
            &&& timestamp_ms == timestamp_ms_spec(timestamp)
        }),
        payload matches ServerPayload::WelcomeNotification { group_id, welcome }
            ==> (r matches Routed::Join { group_id: g, welcome: w } && g@ == id_or_empty(group_id) && w == welcome),
        payload matches ServerPayload::CommitNotification { group_id, commit }
            ==> (r matches Routed::ApplyCommit { mls_group, commit: c } && mls_group@ == mls_group_spec(id_or_empty(group_id)) && c == commit),
        payload matches ServerPayload::VoiceParticipant { group_id, user_id, device_id, joined, muted, camera_on, screen_on }
            ==> (r matches Routed::Participant(d) && {
            &&& d.server_id@ == server_id@
            &&& d.group_id@ == id_or_empty(group_id)
            &&& d.user_id@ == id_or_empty(user_id)
            &&& d.device_id@ == id_or_empty(device_id)
            &&& d.joined == joined
            &&& d.muted == muted
            &&& d.camera_on == camera_on
            &&& d.screen_on == screen_on
        }),
        payload matches ServerPayload::VoiceSignal { group_id, from_device, kind, data }
            ==> (r matches Routed::Signal(d) && {
            &&& d.server_id@ == server_id@
            &&& d.group_id@ == id_or_empty(group_id)
            &&& d.from_device@ == id_or_empty(from_device)
            &&& d.kind@ == signal_kind_name(kind)
            &&& d.data == data
        }),
        payload matches ServerPayload::ModAlert { actor_id, action, target, reason, severity, timestamp }
            ==> (r matches Routed::Alert(d) && {
            &&& d.server_id@ == server_id@
            &&& d.actor_id@ == id_or_empty(actor_id)
            &&& d.action == action
            &&& d.target == target
            &&& d.reason == reason
            &&& d.severity@ == severity_name(severity)
            &&& d.timestamp_ms == timestamp_ms_spec(timestamp)
        }),
        (payload is Typing || payload is Presence) ==> r is Ignore,
{
    match payload {
        ServerPayload::PublicMessage(m) => {
            let mut dto = MessageDto::from_incoming_public(m);
            dto.server_id = server_id.to_owned();
            Routed::Public(dto)
        },
        ServerPayload::PrivateMessage { group_id, sender_id, mls_ciphertext, timestamp } => {
            let group_id = id_value(group_id);
            let mls_group = mls_id(group_id.as_str());
            Routed::Decrypt {
                group_id,
                mls_group,
                sender_id: id_value(sender_id),
                ciphertext: mls_ciphertext,
                timestamp_ms: timestamp_ms(timestamp),
            }
        },
        ServerPayload::WelcomeNotification { group_id, welcome } => {
            Routed::Join { group_id: id_value(group_id), welcome }
        },
        ServerPayload::CommitNotification { group_id, commit } => {
            let group_id = id_value(group_id);
            Routed::ApplyCommit { mls_group: mls_id(group_id.as_str()), commit }
        },
        ServerPayload::VoiceParticipant {
            group_id,
            user_id,
            device_id,
            joined,
            muted,
            camera_on,
            screen_on,
        } => Routed::Participant(
            VoiceParticipantDto {
                server_id: server_id.to_owned(),
                group_id: id_value(group_id),
                user_id: id_value(user_id),
                device_id: id_value(device_id),
                joined,
                muted,
                camera_on,
                screen_on,
            },
        ),
        ServerPayload::VoiceSignal { group_id, from_device, kind, data } => Routed::Signal(
            VoiceSignalDto {
                server_id: server_id.to_owned(),
                group_id: id_value(group_id),
                from_device: id_value(from_device),
                kind: signal_kind(kind),
                data,
            },
        ),
        ServerPayload::ModAlert { actor_id, action, target, reason, severity: sev, timestamp } => {
            Routed::Alert(
                ModAlertDto {
                    server_id: server_id.to_owned(),
                    actor_id: id_value(actor_id),
                    action,
                    target,
                    reason,
                    severity: severity_label(sev),
                    timestamp_ms: timestamp_ms(timestamp),
                },
            )
        },
        ServerPayload::Typing => Routed::Ignore,
        ServerPayload::Presence => Routed::Ignore,
    }
}

/// What `String::from_utf8_lossy` gives for a byte string.
pub uninterp spec fn utf8_lossy_spec(b: Seq<u8>) -> Seq<char>;

/// Whether a lossy decoding `text` of `bytes` is the exact decoding when the
/// bytes are the UTF-8 encoding of some text.
pub open spec fn lossy_exact(bytes: Seq<u8>, text: Seq<char>) -> bool {
    forall|cs: Seq<char>| vstd::utf8::encode_utf8(cs) == bytes ==> text == cs
}

/// `String::from_utf8_lossy(b).into_owned()`: the text of valid UTF-8 exactly
/// (as documented); other input gets replacement characters, which is left to
/// the name.
#[verifier::external_body]
fn utf8_lossy(b: &[u8]) -> (s: String)
    ensures
        s@ == utf8_lossy_spec(b@),
        lossy_exact(b@, s@),
{
    String::from_utf8_lossy(b).into_owned()
}

/// A decrypted application message as archived and shown: its text is the
/// lossy UTF-8 decoding of the plaintext; it is ours when our user sent it.
pub fn received_private(
    server_id: &str,
    group_id: String,
    sender_id: String,
    user_id: &str,
    plaintext: &[u8],
    timestamp_ms: i64,
) -> (d: PrivateMessageDto)
    ensures
        d.server_id@ == server_id@,
        d.group_id == group_id,
        d.sender_id == sender_id,
        d.mine == (sender_id@ == user_id@),
        d.content@ == utf8_lossy_spec(plaintext@),
        lossy_exact(plaintext@, d.content@),
        d.timestamp_ms == timestamp_ms,
{
    let content = utf8_lossy(plaintext);
    let mine = str_eq(sender_id.as_str(), user_id);
    PrivateMessageDto {
        server_id: server_id.to_owned(),
        group_id,
        mine,
        sender_id,
        content,
        timestamp_ms,
    }
}

/// What a decryption attempt on a pushed private message leads to: an
/// application message is archived and shown (as [`received_private`] builds
/// it); a commit, another control message or a failure is neither.
pub fn after_decrypt(
    server_id: &str,
    group_id: String,
    sender_id: String,
    user_id: &str,
    outcome: Result<DecryptOutcome, MlsError>,
    timestamp_ms: i64,
) -> (d: Option<PrivateMessageDto>)
    ensures
        outcome matches Ok(DecryptOutcome::Application(pt)) ==> (d matches Some(x) && {
            &&& x.server_id@ == server_id@
            &&& x.group_id == group_id
            &&& x.sender_id == sender_id
            &&& x.mine == (sender_id@ == user_id@)
            &&& x.content@ == utf8_lossy_spec(pt@)
            &&& x.timestamp_ms == timestamp_ms
        }),
        !(outcome matches Ok(DecryptOutcome::Application(_))) ==> d is None,
{
    match outcome {
        Ok(DecryptOutcome::Application(pt)) => Some(
            received_private(server_id, group_id, sender_id, user_id, pt.as_slice(), timestamp_ms),
        ),
        _ => None,
    }
}

/// Whether a payload's UI event must be delivered for reading to go on: public
/// messages, shown private messages, voice events and alerts must; the joined
/// notice after a Welcome is best effort, and the rest raise no event.
pub open spec fn must_deliver(r: Routed) -> bool {
    r is Public || r is Decrypt || r is Participant || r is Signal || r is Alert
}

/// Whether the stream keeps being read after a payload was handled:
/// `event_failed` when its UI event was emitted and could not be delivered.
/// Reading stops exactly when an event that must be delivered was not.
pub fn keeps_reading(routed: &Routed, event_failed: bool) -> (c: bool)
    ensures
        c == !(event_failed && must_deliver(*routed)),
{
    let must = match routed {
        Routed::Public(_) | Routed::Decrypt { .. } | Routed::Participant(_) | Routed::Signal(_) | Routed::Alert(_) => true,
        _ => false,
    };
    !(event_failed && must)
}

} // verus!

//! Voice calls: who negotiates with whom, what each relayed event does to the
//! call, the ICE candidates that arrive early, and the audio and ringtone
//! catalogues offered in settings.

use vstd::prelude::*;
use crate::strset::{lemma_lex_asymmetric, lemma_lex_irreflexive, lemma_lex_total, lex_less, lex_lt};
use crate::text::{chars_of, str_eq};

verus! {

/// Opus (and WebRTC) operate at 48 kHz for voice.
pub const SAMPLE_RATE: u32 = 48_000;

/// 20 ms frames: the WebRTC default packetization for Opus.
pub const FRAME_SAMPLES: usize = 960;

/// A frame holds 20 milliseconds of audio at the sample rate.
pub proof fn lemma_frame_is_twenty_ms()
    ensures
        FRAME_SAMPLES == (SAMPLE_RATE / 1000) * 20,
{
}

/// A microphone or speaker as offered to the settings UI.
pub struct AudioDevice {
    /// Stable identifier to persist in preferences.
    pub id: String,
    /// Human-readable label.
    pub name: String,
    pub is_default: bool,
}

/// The device lists for the settings UI.
pub struct AudioDevices {
    pub inputs: Vec<AudioDevice>,
    pub outputs: Vec<AudioDevice>,
}

/// The settings entry for a device with id `id` (none when the host could not
/// name it) and label `description` (the id when it has none).
pub fn device_entry(id: Option<String>, description: Option<String>, default_id: Option<&str>) -> (r: Option<AudioDevice>)
    ensures
        id is None <==> r is None,
        r matches Some(d) ==> {
            &&& d.id == id->0
            &&& d.name@ == match description {
                Some(n) => n@,
                None => id->0@,
            }
            &&& d.is_default == (default_id is Some && default_id->0@ == id->0@)
        },
{
    let id = match id {
        Some(id) => id,
        None => return None,
    };
    let name = match description {
        Some(n) => n,
        None => id.clone(),
    };
    let is_default = match default_id {
        Some(d) => str_eq(d, id.as_str()),
        None => false,
    };
    Some(AudioDevice { id, name, is_default })
}

/// One ringtone bundled with the application.
pub struct BundledRingtone {
    pub id: String,
    pub name: String,
    pub bytes: Vec<u8>,
}

/// A ringtone as offered in settings.
pub struct RingtoneInfo {
    pub id: String,
    pub name: String,
}

/// Id of the always-present synthesised ringtone.
pub open spec fn default_ringtone_id() -> Seq<char> {
    "classic"@
}

/// The ringtone files bundled with this build (none: only the synthesised
/// tone is available).
pub fn bundled() -> (r: Vec<BundledRingtone>)
    ensures
        r@.len() == 0,
{
    Vec::new()
}

/// Every selectable ringtone among `bundled`: the built-in one first, then the
/// bundled files in order.
pub fn list_from(bundled: &[BundledRingtone]) -> (out: Vec<RingtoneInfo>)
    ensures
        out@.len() == 1 + bundled@.len(),
        out@[0].id@ == default_ringtone_id(),
        out@[0].name@ == "Classic"@,
        forall|i: int| 0 <= i < bundled@.len() ==> {
            &&& (#[trigger] out@[i + 1]).id == bundled@[i].id
            &&& out@[i + 1].name == bundled@[i].name
        },
{
    let mut out: Vec<RingtoneInfo> = Vec::new();
    out.push(RingtoneInfo { id: "classic".to_owned(), name: "Classic".to_owned() });
    let mut i: usize = 0;
    while i < bundled.len()
        invariant
            i <= bundled@.len(),
            out@.len() == 1 + i,
            out@[0].id@ == default_ringtone_id(),
            out@[0].name@ == "Classic"@,
            forall|j: int| 0 <= j < i ==> {
                &&& (#[trigger] out@[j + 1]).id == bundled@[j].id
                &&& out@[j + 1].name == bundled@[j].name
            },
        decreases bundled@.len() - i,
    {
        out.push(RingtoneInfo { id: bundled[i].id.clone(), name: bundled[i].name.clone() });
        i = i + 1;
    }
    out
}

/// Every selectable ringtone of this build.
pub fn list() -> (out: Vec<RingtoneInfo>)
    ensures
        out@.len() == 1,
        out@[0].id@ == default_ringtone_id(),
        out@[0].name@ == "Classic"@,
{
    let b = bundled();
    list_from(b.as_slice())
}

/// The bundled ringtone to play for `id`: the first with that id; `None`
/// means the synthesised tone (an unknown or removed id never goes silent).
pub fn find_ringtone(bundled: &[BundledRingtone], id: &str) -> (r: Option<usize>)
    ensures
        match r {
            Some(k) => k < bundled@.len() && bundled@[k as int].id@ == id@ && forall|j: int|
                0 <= j < k ==> (#[trigger] bundled@[j]).id@ != id@,
            None => forall|j: int| 0 <= j < bundled@.len() ==> (#[trigger] bundled@[j]).id@ != id@,
        },
{
    let mut k: usize = 0;
    while k < bundled.len()
        invariant
            k <= bundled@.len(),
            forall|j: int| 0 <= j < k ==> (#[trigger] bundled@[j]).id@ != id@,
        decreases bundled@.len() - k,
    {
        if str_eq(bundled[k].id.as_str(), id) {
            return Some(k);
        }
        k = k + 1;
    }
    None
}

/// Whether the device `mine` makes the offer to `other`: the smaller device id
/// offers and the other answers.
pub open spec fn offers(mine: Seq<char>, other: Seq<char>) -> bool {
    lex_lt(mine, other)
}

/// Whether this device offers to `other`.
pub fn is_offerer(mine: &str, other: &str) -> (b: bool)
    ensures
        b == offers(mine@, other@),
{
    let a = chars_of(mine);
    let o = chars_of(other);
    lex_less(a.as_slice(), o.as_slice())
}

/// Of two distinct devices exactly one offers, so a simultaneous join never
/// produces two offers (nor none); a device never offers to itself.
pub proof fn lemma_offerer_election(a: Seq<char>, b: Seq<char>)
    ensures
        a != b ==> (offers(a, b) != offers(b, a)),
        !offers(a, a),
{
    lemma_lex_irreflexive(a);
    if a != b {
        lemma_lex_total(a, b);
        if lex_lt(a, b) {
            lemma_lex_asymmetric(a, b);
        }
    }
}

/// A call in progress: where it lives, our device, and the remote devices we
/// are connected to.
pub struct CallRoster {
    pub server_id: String,
    pub group_id: String,
    pub my_device: String,
    pub peers: Vec<String>,
}

/// Whether the roster is connected to device `d`.
pub open spec fn has_peer(r: CallRoster, d: Seq<char>) -> bool {
    exists|i: int| 0 <= i < r.peers@.len() && (#[trigger] r.peers@[i])@ == d
}

/// No remote device is listed twice.
pub open spec fn distinct_peers(r: CallRoster) -> bool {
    forall|i: int, j: int|
        0 <= i < j < r.peers@.len() ==> (#[trigger] r.peers@[i])@ != (#[trigger] r.peers@[j])@
}

/// Start a call on `server_id`/`group_id` as device `my_device`, with nobody
/// connected yet; a session without a device id cannot call.
pub fn start_call(server_id: String, group_id: String, my_device: String) -> (r: Result<CallRoster, String>)
    ensures
        r is Err <==> my_device@.len() == 0,
        r matches Err(e) ==> e@ == "this session has no device id - reconnect and try again"@,
        r matches Ok(c) ==> c.server_id == server_id && c.group_id == group_id && c.my_device
            == my_device && c.peers@.len() == 0,
{
    proof {
        reveal_strlit("");
        if my_device@.len() == 0 {
            assert(my_device@ =~= ""@);
        }
    }
    if str_eq(my_device.as_str(), "") {
        return Err("this session has no device id - reconnect and try again".to_owned());
    }
    Ok(CallRoster { server_id, group_id, my_device, peers: Vec::new() })
}

/// The index of the connected device `d`.
fn peer_index(r: &CallRoster, d: &str) -> (k: Option<usize>)
    ensures
        match k {
            Some(i) => i < r.peers@.len() && r.peers@[i as int]@ == d@,
            None => !has_peer(*r, d@),
        },
{
    let mut i: usize = 0;
    while i < r.peers.len()
        invariant
            i <= r.peers@.len(),
            forall|j: int| 0 <= j < i ==> (#[trigger] r.peers@[j])@ != d@,
        decreases r.peers@.len() - i,
    {
        if str_eq(r.peers[i].as_str(), d) {
            return Some(i);
        }
        i = i + 1;
    }
    None
}

/// Whether an event concerns this call: same server and group, from another
/// device with a non-empty id.
pub open spec fn concerns_call(r: CallRoster, server_id: Seq<char>, group_id: Seq<char>, device: Seq<char>) -> bool {
    r.server_id@ == server_id && r.group_id@ == group_id && device != r.my_device@ && device.len() > 0
}

/// What a participant event does to the call.
pub enum ParticipantAction {
    /// Nothing.
    Ignore,
    /// The device left: close the connection at this index of the roster.
    Disconnect(usize),
    /// The device joined: connect to it, making the offer when `offer`.
    Connect { offer: bool },
}

/// The effect of a participant joining or leaving the call's channel. A
/// device we already have is not connected twice; the offerer is elected by
/// device id.
pub fn participant_action(
    roster: &CallRoster,
    server_id: &str,
    group_id: &str,
    device_id: &str,
    joined: bool,
) -> (a: ParticipantAction)
    ensures
        !concerns_call(*roster, server_id@, group_id@, device_id@) ==> a is Ignore,
        concerns_call(*roster, server_id@, group_id@, device_id@) && !joined ==> {
            &&& (has_peer(*roster, device_id@) <==> a is Disconnect)
            &&& (a matches ParticipantAction::Disconnect(i) ==> i < roster.peers@.len()
                && roster.peers@[i as int]@ == device_id@)
            &&& (!has_peer(*roster, device_id@) ==> a is Ignore)
        },
        concerns_call(*roster, server_id@, group_id@, device_id@) && joined ==> {
            &&& (has_peer(*roster, device_id@) ==> a is Ignore)
            &&& (!has_peer(*roster, device_id@) ==> a == (ParticipantAction::Connect {
                offer: offers(roster.my_device@, device_id@),
            }))
        },
{
    proof {
        reveal_strlit("");
        if device_id@.len() == 0 {
            assert(device_id@ =~= ""@);
        }
    }
    if !str_eq(roster.server_id.as_str(), server_id) || !str_eq(roster.group_id.as_str(), group_id) {
        return ParticipantAction::Ignore;
    }
    if str_eq(device_id, roster.my_device.as_str()) || str_eq(device_id, "") {
        return ParticipantAction::Ignore;
    }
    match peer_index(roster, device_id) {
        Some(i) => {
            if joined {
                ParticipantAction::Ignore
            } else {
                ParticipantAction::Disconnect(i)
            }
        },
        None => {
            if joined {
                ParticipantAction::Connect { offer: is_offerer(roster.my_device.as_str(), device_id) }
            } else {
                ParticipantAction::Ignore
            }
        },
    }
}

/// What a relayed signal does to the call.
pub enum SignalAction {
    /// Nothing (another call, or an unknown device sending anything but an
    /// offer).
    Ignore,
    /// Hand the signal to the connection at this index of the roster.
    Deliver(usize),
    /// An offer from a device we have not connected to yet (the participant
    /// event can arrive later): connect to it and answer.
    AnswerNew,
}

/// The effect of a relayed signal of kind `kind` from `from_device`.
pub fn signal_action(roster: &CallRoster, server_id: &str, group_id: &str, from_device: &str, kind: &str) -> (a: SignalAction)
    ensures
        (roster.server_id@ != server_id@ || roster.group_id@ != group_id@) ==> a is Ignore,
        (roster.server_id@ == server_id@ && roster.group_id@ == group_id@) ==> {
            &&& (has_peer(*roster, from_device@) <==> a is Deliver)
            &&& (a matches SignalAction::Deliver(i) ==> i < roster.peers@.len() && roster.peers@[i as int]@
                == from_device@)
            &&& (!has_peer(*roster, from_device@) ==> (a is AnswerNew <==> kind@ == "offer"@))
            &&& (!has_peer(*roster, from_device@) && kind@ != "offer"@ ==> a is Ignore)
        },
{
    if !str_eq(roster.server_id.as_str(), server_id) || !str_eq(roster.group_id.as_str(), group_id) {
        return SignalAction::Ignore;
    }
    match peer_index(roster, from_device) {
        Some(i) => SignalAction::Deliver(i),
        None => {
            if str_eq(kind, "offer") {
                SignalAction::AnswerNew
            } else {
                SignalAction::Ignore
            }
        },
    }
}

/// Record a connection to `device`.
pub fn add_peer(roster: &mut CallRoster, device: String)
    ensures
        final(roster).server_id == old(roster).server_id,
        final(roster).group_id == old(roster).group_id,
        final(roster).my_device == old(roster).my_device,
        final(roster).peers@ == old(roster).peers@.push(device),
{
    roster.peers.push(device);
}

/// Forget the connection at index `i`.
pub fn remove_peer(roster: &mut CallRoster, i: usize)
    requires
        i < old(roster).peers@.len(),
    ensures
        final(roster).server_id == old(roster).server_id,
        final(roster).group_id == old(roster).group_id,
        final(roster).my_device == old(roster).my_device,
        final(roster).peers@ == old(roster).peers@.remove(i as int),
{
    roster.peers.remove(i);
}

/// Connecting only to devices the roster does not have (what
/// [`participant_action`] and [`signal_action`] ask for) and removing any
/// connection keep every device listed at most once.
pub proof fn lemma_roster_stays_distinct(r: CallRoster, device: String, i: int)
    requires
        distinct_peers(r),
    ensures
        !has_peer(r, device@) ==> forall|a: int, b: int|
            0 <= a < b < r.peers@.push(device).len() ==> (#[trigger] r.peers@.push(device)[a])@
                != (#[trigger] r.peers@.push(device)[b])@,
        0 <= i < r.peers@.len() ==> forall|a: int, b: int|
            0 <= a < b < r.peers@.remove(i).len() ==> (#[trigger] r.peers@.remove(i)[a])@
                != (#[trigger] r.peers@.remove(i)[b])@,
{
    let p = r.peers@;
    if !has_peer(r, device@) {
        let q = p.push(device);
        assert forall|a: int, b: int| 0 <= a < b < q.len() implies (#[trigger] q[a])@ != (#[trigger] q[b])@ by {
            if b < p.len() {
                assert(q[a] == p[a] && q[b] == p[b]);
                assert(p[a]@ != p[b]@);
            } else {
                assert(q[a] == p[a]);
                assert(!(p[a]@ == device@));
            }
        }
    }
    if 0 <= i < p.len() {
        let q = p.remove(i);
        assert forall|a: int, b: int| 0 <= a < b < q.len() implies (#[trigger] q[a])@ != (#[trigger] q[b])@ by {
            let a2 = if a < i { a } else { a + 1 };
            let b2 = if b < i { b } else { b + 1 };
            assert(q[a] == p[a2] && q[b] == p[b2]);
            assert(p[a2]@ != p[b2]@);
        }
    }
}

/// ICE candidates of one connection: applied at once after the remote
/// description is set, held in arrival order before that.
pub struct IceGate {
    pub has_remote: bool,
    pub pending: Vec<String>,
}

/// A gate for a new connection: no remote description, nothing held.
pub fn new_ice_gate() -> (g: IceGate)
    ensures
        !g.has_remote,
        g.pending@.len() == 0,
{
    IceGate { has_remote: false, pending: Vec::new() }
}

/// A candidate arrived: returned to apply now, or held (`None`) until the
/// remote description arrives.
pub fn ice_arrived(gate: &mut IceGate, candidate: String) -> (now: Option<String>)
    ensures
        final(gate).has_remote == old(gate).has_remote,
        old(gate).has_remote ==> now == Some(candidate) && final(gate).pending@ == old(gate).pending@,
        !old(gate).has_remote ==> now is None && final(gate).pending@ == old(gate).pending@.push(
            candidate,
        ),
{
    if gate.has_remote {
        Some(candidate)
    } else {
        gate.pending.push(candidate);
        None
    }
}

/// The remote description was applied: every held candidate is released, in
/// arrival order, and later ones apply at once.
pub fn remote_applied(gate: &mut IceGate) -> (held: Vec<String>)
    ensures
        final(gate).has_remote,
        final(gate).pending@.len() == 0,
        held@ == old(gate).pending@,
{
    gate.has_remote = true;
    let mut held: Vec<String> = Vec::new();
    std::mem::swap(&mut held, &mut gate.pending);
    held
}

/// A connection's signalling history: `Some(c)` a candidate arrived, `None`
/// the remote description was applied. The result: whether the remote
/// description is set, the candidates held, and those applied (in order), when
/// each event is handled by [`ice_arrived`] or [`remote_applied`].
pub open spec fn ice_run(events: Seq<Option<String>>) -> (bool, Seq<String>, Seq<String>)
    decreases events.len(),
{
    if events.len() == 0 {
        (false, Seq::empty(), Seq::empty())
    } else {
        let (has_remote, held, applied) = ice_run(events.drop_last());
        match events.last() {
            Some(c) => if has_remote {
                (has_remote, held, applied.push(c))
            } else {
                (has_remote, held.push(c), applied)
            },
            None => (true, Seq::empty(), applied + held),
        }
    }
}

/// The candidates of a signalling history, in arrival order.
pub open spec fn ice_candidates(events: Seq<Option<String>>) -> Seq<String>
    decreases events.len(),
{
    if events.len() == 0 {
        Seq::empty()
    } else {
        match events.last() {
            Some(c) => ice_candidates(events.drop_last()).push(c),
            None => ice_candidates(events.drop_last()),
        }
    }
}

/// No candidate is lost or reordered: at every point, the candidates applied
/// followed by those still held are exactly those that arrived, in order; and
/// once the remote description is set nothing is held.
pub proof fn lemma_ice_nothing_lost(events: Seq<Option<String>>)
    ensures
        ice_run(events).2 + ice_run(events).1 == ice_candidates(events),
        ice_run(events).0 ==> ice_run(events).1.len() == 0,
    decreases events.len(),
{
    if events.len() == 0 {
        assert(Seq::<String>::empty() + Seq::<String>::empty() =~= Seq::<String>::empty());
    } else {
        lemma_ice_nothing_lost(events.drop_last());
        let (h, p, a) = ice_run(events.drop_last());
        match events.last() {
            Some(c) => {
                if h {
                    assert(a.push(c) + p =~= (a + p).push(c));
                } else {
                    assert(a + p.push(c) =~= (a + p).push(c));
                }
            },
            None => {
                assert((a + p) + Seq::<String>::empty() =~= a + p);
            },
        }
    }
}

} // verus!

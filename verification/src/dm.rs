//! Direct messages with contacts: the guest account used on a contact's host,
//! which of its groups is the DM, and how a DM is listed.

use vstd::prelude::*;
use crate::contacts::{bytes_eq, index_of_id, key_fingerprint_spec, lookup, ContactTarget, StoredContact};
use crate::mls_engine::{mls_key_package_parses, mls_message_parses, MlsEngine};
use crate::dto::{DmConversation, GroupDto};
use crate::hashing::blake3_keyed_hash_spec;
use crate::hex::{hex_pairs, hex_pairs_spec, hex_spec, pair_val, to_hex};
use crate::identity::IdentityKeyPair;
use crate::text::{concat_str, starts_with_str, str_eq};

verus! {

/// Whether no character starts at byte `x` (a UTF-8 continuation byte).
pub open spec fn is_continuation(x: u8) -> bool {
    0x80 <= x <= 0xbf
}

/// Whether cutting `b` into two-byte pieces, front to back, comes to a piece
/// that would split a character before it comes to one that is not a number.
pub open spec fn pairs_split_a_char(b: Seq<u8>) -> bool
    decreases b.len(),
{
    if b.len() < 2 {
        false
    } else if is_continuation(b[0]) || (b.len() > 2 && is_continuation(b[2])) {
        true
    } else if pair_val(b[0], b[1]) is None {
        false
    } else {
        pairs_split_a_char(b.skip(2))
    }
}

/// Decode a hex string into bytes (contact ids are hex public keys): `None`
/// for an odd length or a piece that is not a hex number.
pub fn hex_decode(s: &str) -> (r: Option<Vec<u8>>)
    requires
        vstd::utf8::encode_utf8(s@).len() % 2 == 0 ==> !pairs_split_a_char(vstd::utf8::encode_utf8(s@)),
    ensures
        match r {
            Some(v) => hex_pairs_spec(vstd::utf8::encode_utf8(s@)) == Some(v@),
            None => hex_pairs_spec(vstd::utf8::encode_utf8(s@)) is None,
        },
{
    hex_pairs(s.as_bytes())
}

/// Lowercase hex of the first 8 bytes (16 hex digits; fewer for a shorter input).
pub fn hex16(bytes: &[u8]) -> (s: String)
    ensures
        s@ == hex_spec(bytes@.take(if bytes@.len() < 8 { bytes@.len() as int } else { 8 })),
{
    let n: usize = if bytes.len() < 8 {
        bytes.len()
    } else {
        8
    };
    let mut head: Vec<u8> = Vec::new();
    let mut i: usize = 0;
    while i < n
        invariant
            n <= bytes@.len(),
            i <= n,
            head@ == bytes@.take(i as int),
        decreases n - i,
    {
        head.push(bytes[i]);
        assert(bytes@.take(i + 1) =~= bytes@.take(i as int).push(bytes@[i as int]));
        i = i + 1;
    }
    to_hex(head.as_slice())
}

/// Lowercase hex of all bytes.
pub fn hex_full(bytes: &[u8]) -> (s: String)
    ensures
        s@ == hex_spec(bytes@),
{
    to_hex(bytes)
}

/// The guest user name on a contact's host: `dm-` and the hex of the first 8
/// bytes of our contact-identity public key.
pub fn guest_username(identity_pubkey: &[u8]) -> (s: String)
    ensures
        s@ == "dm-"@ + hex_spec(
            identity_pubkey@.take(
                if identity_pubkey@.len() < 8 {
                    identity_pubkey@.len() as int
                } else {
                    8
                },
            ),
        ),
{
    let h = hex16(identity_pubkey);
    concat_str("dm-", h.as_str())
}

/// The host a guest password is scoped to: its pinned certificate when there
/// is one, else its stable user id.
pub open spec fn host_context(cert: Option<String>, host_user_id: Seq<char>) -> Seq<char> {
    match cert {
        Some(c) => c@,
        None => host_user_id,
    }
}

/// The derivation context of the guest password for a host.
pub open spec fn guest_password_context(cert: Option<String>, host_user_id: Seq<char>) -> Seq<u8> {
    vstd::utf8::encode_utf8("accord:dm-guest-pw:"@ + host_context(cert, host_user_id))
}

/// The guest password on a host: secret, deterministic, and scoped to that host
/// (hex of the seed derived from the master key for the host's context), so one
/// host cannot reuse it on another.
pub fn guest_password(master: &IdentityKeyPair, cert: Option<String>, host_user_id: &str) -> (s: String)
    ensures
        s@ == hex_spec(blake3_keyed_hash_spec(master@, guest_password_context(cert, host_user_id@))),
{
    let context = match cert {
        Some(c) => concat_str("accord:dm-guest-pw:", c.as_str()),
        None => concat_str("accord:dm-guest-pw:", host_user_id),
    };
    let seed = master.derive_for_context(context.as_str().as_bytes()).secret_bytes();
    hex_full(&seed)
}

/// The session id of the DM session on a contact's host.
pub fn dm_session_id(contact_id: &str) -> (s: String)
    ensures
        s@ == "dm:"@ + contact_id@,
{
    concat_str("dm:", contact_id)
}

/// Whether a session can hold personal DMs: the home session or a contact-DM
/// session (tavern sessions cannot).
pub fn holds_dms(session_id: &str) -> (b: bool)
    ensures
        b == (session_id@ == "home"@ || ("dm:"@.len() <= session_id@.len() && session_id@.take(
            "dm:"@.len() as int,
        ) == "dm:"@)),
{
    str_eq(session_id, "home") || starts_with_str(session_id, "dm:")
}

/// The summary of a DM group with `peer_name`.
pub fn dm_group(group_id: String, peer_name: &str) -> (g: GroupDto)
    ensures
        g.id == group_id,
        g.name@ == peer_name@,
        g.kind@ == "private"@,
        g.channel_kind@ == "text"@,
        g.member_count == 2,
{
    GroupDto {
        id: group_id,
        name: peer_name.to_owned(),
        kind: "private".to_owned(),
        channel_kind: "text".to_owned(),
        member_count: 2,
    }
}

/// The byte views of a list of identities.
pub open spec fn member_views(ms: Seq<Vec<u8>>) -> Seq<Seq<u8>> {
    ms.map_values(|m: Vec<u8>| m@)
}

/// The index of the first member that is not `own`.
fn first_other(members: &[Vec<u8>], own: &[u8]) -> (r: Option<usize>)
    ensures
        match r {
            Some(k) => k < members@.len() && members@[k as int]@ != own@ && forall|j: int|
                0 <= j < k ==> (#[trigger] members@[j])@ == own@,
            None => forall|j: int| 0 <= j < members@.len() ==> (#[trigger] members@[j])@ == own@,
        },
{
    let mut k: usize = 0;
    while k < members.len()
        invariant
            k <= members@.len(),
            forall|j: int| 0 <= j < k ==> (#[trigger] members@[j])@ == own@,
        decreases members@.len() - k,
    {
        if !bytes_eq(members[k].as_slice(), own) {
            return Some(k);
        }
        k = k + 1;
    }
    None
}

/// Whether `peer` is among `members`.
pub fn holds_member(members: &[Vec<u8>], peer: &[u8]) -> (b: bool)
    ensures
        b == exists|j: int| 0 <= j < members@.len() && (#[trigger] members@[j])@ == peer@,
{
    let mut k: usize = 0;
    while k < members.len()
        invariant
            k <= members@.len(),
            forall|j: int| 0 <= j < k ==> (#[trigger] members@[j])@ != peer@,
        decreases members@.len() - k,
    {
        if bytes_eq(members[k].as_slice(), peer) {
            return true;
        }
        k = k + 1;
    }
    false
}

/// The name a DM peer is listed under: the contact's name, else "Unknown".
pub open spec fn peer_name_spec(contacts: Seq<StoredContact>, peer_id: Seq<char>) -> Seq<char> {
    if index_of_id(contacts, peer_id) >= 0 {
        contacts[index_of_id(contacts, peer_id)].name@
    } else {
        "Unknown"@
    }
}

/// The Direct Messages entry for one group of a DM-holding session: only a
/// private group (chat kind 2) with another member is a DM; it is attributed
/// to the first member that is not us.
pub fn dm_conversation(
    server_id: &str,
    group_id: String,
    kind: i32,
    members: &[Vec<u8>],
    own: &[u8],
    contacts: &[StoredContact],
) -> (r: Option<DmConversation>)
    ensures
        kind != 2 ==> r is None,
        kind == 2 ==> (r is None <==> forall|j: int|
            0 <= j < members@.len() ==> (#[trigger] members@[j])@ == own@),
        r matches Some(d) ==> exists|k: int|
            0 <= k < members@.len() && (forall|j: int| 0 <= j < k ==> (#[trigger] members@[j])@
                == own@) && members@[k]@ != own@ && {
                let peer = members@[k]@;
                &&& d.server_id@ == server_id@
                &&& d.group_id == group_id
                &&& d.peer_id@ == hex_spec(peer)
                &&& d.peer_name@ == peer_name_spec(contacts@, hex_spec(peer))
                &&& d.fingerprint@ == key_fingerprint_spec(peer)
            },
{
    if kind != 2 {
        return None;
    }
    let k = match first_other(members, own) {
        Some(k) => k,
        None => return None,
    };
    let peer = members[k].as_slice();
    let peer_id = hex_full(peer);
    let peer_name = match lookup(contacts, peer_id.as_str()) {
        Some(t) => t.name,
        None => "Unknown".to_owned(),
    };
    let fingerprint = crate::contacts::fingerprint(peer);
    Some(DmConversation {
        server_id: server_id.to_owned(),
        group_id,
        peer_id,
        peer_name,
        fingerprint,
    })
}

/// A group of a contact's host as seen while looking for an existing DM: its
/// chat kind, id, and members if our MLS state still has the group.
pub struct DmCandidate {
    pub kind: i32,
    pub group_id: String,
    pub members: Option<Vec<Vec<u8>>>,
}

/// Whether a candidate is a DM with `peer`: private, known to our MLS state,
/// and holding `peer`.
pub open spec fn is_dm_with(c: DmCandidate, peer: Seq<u8>) -> bool {
    c.kind == 2 && c.members is Some && exists|j: int|
        0 <= j < c.members->0@.len() && (#[trigger] c.members->0@[j])@ == peer
}

/// The first group that is already a DM with `peer_pub`, as a DM summary.
pub fn existing_dm(groups: Vec<DmCandidate>, peer_pub: &[u8], peer_name: &str) -> (r: Option<GroupDto>)
    ensures
        r is None <==> forall|i: int| 0 <= i < groups@.len() ==> !is_dm_with(#[trigger] groups@[i], peer_pub@),
        r matches Some(g) ==> exists|i: int|
            0 <= i < groups@.len() && is_dm_with(#[trigger] groups@[i], peer_pub@) && (forall|j: int|
                0 <= j < i ==> !is_dm_with(#[trigger] groups@[j], peer_pub@)) && g.id == groups@[i].group_id
                && g.name@ == peer_name@ && g.kind@ == "private"@ && g.channel_kind@ == "text"@
                && g.member_count == 2,
{
    let mut i: usize = 0;
    while i < groups.len()
        invariant
            i <= groups@.len(),
            forall|j: int| 0 <= j < i ==> !is_dm_with(#[trigger] groups@[j], peer_pub@),
        decreases groups@.len() - i,
    {
        let c = &groups[i];
        if c.kind == 2 {
            match &c.members {
                Some(members) => {
                    if holds_member(members.as_slice(), peer_pub) {
                        assert(is_dm_with(groups@[i as int], peer_pub@));
                        return Some(dm_group(c.group_id.clone(), peer_name));
                    }
                },
                None => {},
            }
        }
        i = i + 1;
    }
    None
}

/// Remember a contact we have a DM with; no change when already recorded.
pub fn record_target(targets: &mut Vec<String>, contact_id: &str) -> (added: bool)
    ensures
        added == !exists|j: int| 0 <= j < old(targets)@.len() && (#[trigger] old(targets)@[j])@ == contact_id@,
        added ==> final(targets)@.len() == old(targets)@.len() + 1 && final(targets)@.drop_last() == old(targets)@
            && final(targets)@.last()@ == contact_id@,
        !added ==> final(targets)@ == old(targets)@,
{
    let mut k: usize = 0;
    while k < targets.len()
        invariant
            k <= targets@.len(),
            targets@ == old(targets)@,
            forall|j: int| 0 <= j < k ==> (#[trigger] targets@[j])@ != contact_id@,
        decreases targets@.len() - k,
    {
        if str_eq(targets[k].as_str(), contact_id) {
            return false;
        }
        k = k + 1;
    }
    targets.push(contact_id.to_owned());
    assert(targets@.drop_last() =~= old(targets)@);
    true
}

/// The contact a DM is opened with, checked before anything goes on the
/// network: an unknown contact, or one whose code carries no host, is refused.
pub fn dm_target(contacts: &[StoredContact], contact_id: &str) -> (r: Result<ContactTarget, String>)
    ensures
        index_of_id(contacts@, contact_id@) < 0 ==> (r matches Err(e) && e@ == "unknown contact"@),
        index_of_id(contacts@, contact_id@) >= 0 && contacts@[index_of_id(contacts@, contact_id@)].host_user_id is None
            ==> (r matches Err(e) && e@ == "this contact code has no host info - ask them for an updated code"@),
        r matches Ok(t) ==> index_of_id(contacts@, contact_id@) >= 0 && {
            let c = contacts@[index_of_id(contacts@, contact_id@)];
            &&& t.name == c.name
            &&& t.addresses@ == c.addresses@
            &&& t.cert == c.cert
            &&& t.host_user_id == c.host_user_id
            &&& c.host_user_id is Some
        },
{
    match lookup(contacts, contact_id) {
        None => Err("unknown contact".to_string()),
        Some(t) => {
            if t.host_user_id.is_none() {
                Err("this contact code has no host info - ask them for an updated code".to_string())
            } else {
                Ok(t)
            }
        },
    }
}

/// One device's published key package, as fetched for a peer.
pub struct DevicePackage {
    pub device_id: String,
    pub key_package: Vec<u8>,
}

/// The Welcome addressed to one of the peer's devices.
pub struct WelcomeTarget {
    pub device_id: String,
    pub welcome: Vec<u8>,
}

/// Set up the MLS side of a new DM: refuse a peer with no published key
/// packages, or with no devices, before the engine is touched; otherwise create
/// group `group_id` and add each device in turn, giving one Welcome per device
/// (in the order of the packages, each made by adding that device's package,
/// which therefore parses) and the last commit.
pub fn dm_welcomes(
    engine: &mut MlsEngine,
    group_id: &[u8],
    bundle: Option<Vec<DevicePackage>>,
) -> (r: Result<(Vec<WelcomeTarget>, Vec<u8>), String>)
    ensures
        final(engine)@ == old(engine)@,
        bundle is None ==> (r matches Err(e) && e@ == "peer has no published KeyPackages (have they logged in?)"@
            && *final(engine) == *old(engine)),
        bundle matches Some(v) && v@.len() == 0 ==> (r matches Err(e) && e@ == "peer has no devices to add"@
            && *final(engine) == *old(engine)),
        r matches Ok((ws, commit)) ==> bundle matches Some(v) && v@.len() > 0 && ws@.len() == v@.len()
            && (forall|i: int| 0 <= i < ws@.len() ==> (#[trigger] ws@[i]).device_id == v@[i].device_id
                && mls_message_parses(ws@[i].welcome@) && mls_key_package_parses(v@[i].key_package@))
            && mls_message_parses(commit@),
{
    let packages = match bundle {
        None => return Err("peer has no published KeyPackages (have they logged in?)".to_string()),
        Some(v) => v,
    };
    if packages.len() == 0 {
        return Err("peer has no devices to add".to_string());
    }
    if let Err(e) = engine.create_group(group_id) {
        return Err(e.message());
    }
    let mut welcomes: Vec<WelcomeTarget> = Vec::new();
    let mut last_commit: Vec<u8> = Vec::new();
    let mut i: usize = 0;
    while i < packages.len()
        invariant
            i <= packages@.len(),
            packages@.len() > 0,
            bundle matches Some(v) && v@ == packages@,
            engine@ == old(engine)@,
            welcomes@.len() == i,
            forall|j: int| 0 <= j < i ==> (#[trigger] welcomes@[j]).device_id == packages@[j].device_id
                && mls_message_parses(welcomes@[j].welcome@) && mls_key_package_parses(packages@[j].key_package@),
            i > 0 ==> mls_message_parses(last_commit@),
        decreases packages@.len() - i,
    {
        let dp = &packages[i];
        let (commit, welcome) = match engine.add_member(group_id, dp.key_package.as_slice()) {
            Ok(p) => p,
            Err(e) => return Err(e.message()),
        };
        assert(mls_key_package_parses(packages@[i as int].key_package@));
        last_commit = commit;
        let ghost before = welcomes@;
        welcomes.push(WelcomeTarget { device_id: dp.device_id.clone(), welcome });
        proof {
            assert forall|j: int| 0 <= j < i + 1 implies (#[trigger] welcomes@[j]).device_id == packages@[j].device_id
                && mls_message_parses(welcomes@[j].welcome@) && mls_key_package_parses(packages@[j].key_package@) by {
                if j < i {
                    assert(welcomes@[j] == before[j]);
                }
            }
        }
        i = i + 1;
    }
    Ok((welcomes, last_commit))
}

} // verus!

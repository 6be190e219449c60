//! Friend requests: the local outbox of requests and acceptances awaiting
//! delivery, and what a sync decides for each request parked on the home node.
//!
//! An outbox entry is either a `"request"` (we asked a peer to add us) or an
//! `"accept"` (we accepted theirs and owe them our code). Requests stay until
//! the peer accepts or we withdraw them; a delivered acceptance is spent.

use vstd::prelude::*;
use crate::contacts::{fingerprint, key_fingerprint_spec, name_or_unknown, ContactCodeParts, ContactTarget};
use crate::hex::{hex_pairs, hex_pairs_spec, hex_spec, lemma_hex_roundtrip, to_hex};
use crate::settings::FriendRequestPolicy;
use crate::text::str_eq;

verus! {

/// An outgoing request or acceptance awaiting (or retrying) delivery.
pub struct OutboxEntry {
    /// Hex of the peer's contact-identity key.
    pub peer_id: String,
    /// The peer's contact code (how we reach their node).
    pub peer_code: String,
    pub peer_name: String,
    /// `"request"` or `"accept"`.
    pub kind: String,
    /// Display name we introduce ourselves with.
    pub my_display: String,
    pub sent_at_ms: i64,
    pub delivered: bool,
}

/// An incoming friend request for the UI.
pub struct IncomingRequestDto {
    /// Server-side row id (used to respond).
    pub id: String,
    pub name: String,
    pub fingerprint: String,
    /// The requester's contact code (added on accept).
    pub code: String,
    pub created_at_ms: i64,
}

/// An outgoing request as shown in "Pending sent".
pub struct PendingSentDto {
    pub peer_id: String,
    pub name: String,
    pub fingerprint: String,
    pub delivered: bool,
    pub sent_at_ms: i64,
}

/// Result of a sync: what to render in the Friend Requests view.
pub struct FriendsSync {
    pub incoming: Vec<IncomingRequestDto>,
    pub pending: Vec<PendingSentDto>,
}

/// A row parked for us on our home node.
pub struct ParkedRequest {
    pub id: String,
    pub contact_code: String,
    /// `"request"` or `"accept"`.
    pub kind: String,
    pub created_at_ms: i64,
}

/// What a sync does with one parked row.
pub enum ParkedAction {
    /// The row's code is unusable: delete the row.
    Discard,
    /// The peer accepted our request: add them from `code`, complete our
    /// pending request to `peer_id`, delete the row.
    Accepted { peer_id: String, code: String },
    /// Our policy refuses requests: delete the row without telling anyone.
    Refuse,
    /// Show the request for manual review.
    Show(IncomingRequestDto),
}

/// A delivery target from a decoded contact code, with the peer's identity
/// key; a key that is not 32 bytes is refused.
pub fn target_from_code(code: ContactCodeParts) -> (r: Result<(ContactTarget, Vec<u8>), String>)
    ensures
        r is Err <==> code.identity_pubkey@.len() != 32,
        r matches Err(e) ==> e@ == "contact code has an invalid identity key"@,
        r matches Ok((t, id)) ==> {
            &&& t.name@ == name_or_unknown(code.name)
            &&& t.addresses == code.addresses
            &&& t.cert == code.cert
            &&& t.host_user_id == code.host_user_id
            &&& id == code.identity_pubkey
        },
{
    if code.identity_pubkey.len() != 32 {
        return Err("contact code has an invalid identity key".to_owned());
    }
    let name = match code.name {
        Some(n) => n,
        None => "Unknown".to_owned(),
    };
    Ok((
        ContactTarget {
            name,
            addresses: code.addresses,
            cert: code.cert,
            host_user_id: code.host_user_id,
        },
        code.identity_pubkey,
    ))
}

/// The fingerprint shown for a peer stored by its hex id: the key fingerprint
/// of the decoded bytes, empty when the id does not decode.
pub open spec fn hex_fingerprint_spec(peer_id: Seq<char>) -> Seq<char> {
    match hex_pairs_spec(vstd::utf8::encode_utf8(peer_id)) {
        Some(key) => key_fingerprint_spec(key),
        None => Seq::empty(),
    }
}

/// Fingerprint from a stored hex identity (outbox entries store the hex form).
pub fn hex_fingerprint(peer_id_hex: &str) -> (s: String)
    ensures
        s@ == hex_fingerprint_spec(peer_id_hex@),
{
    match hex_pairs(peer_id_hex.as_bytes()) {
        Some(key) => fingerprint(key.as_slice()),
        None => String::new(),
    }
}

/// A peer's fingerprint read back from its hex id is the fingerprint of its key.
pub proof fn lemma_hex_fingerprint_of_id(key: Seq<u8>)
    ensures
        hex_fingerprint_spec(hex_spec(key)) == key_fingerprint_spec(key),
{
    lemma_hex_roundtrip(key);
}

/// Whether `e` is an entry of kind `kind` for peer `peer`.
pub open spec fn is_entry(e: OutboxEntry, peer: Seq<char>, kind: Seq<char>) -> bool {
    e.peer_id@ == peer && e.kind@ == kind
}

/// The outbox without the entries of kind `kind` for peer `peer`, in order.
pub open spec fn without_entries(s: Seq<OutboxEntry>, peer: Seq<char>, kind: Seq<char>) -> Seq<
    OutboxEntry,
>
    decreases s.len(),
{
    if s.len() == 0 {
        Seq::empty()
    } else if is_entry(s.last(), peer, kind) {
        without_entries(s.drop_last(), peer, kind)
    } else {
        without_entries(s.drop_last(), peer, kind).push(s.last())
    }
}

/// Drop every entry of kind `kind` for peer `peer_id`, keeping the rest in order.
pub fn remove_entries(outbox: &mut Vec<OutboxEntry>, peer_id: &str, kind: &str)
    ensures
        final(outbox)@ == without_entries(old(outbox)@, peer_id@, kind@),
{
    let mut rest: Vec<OutboxEntry> = Vec::new();
    std::mem::swap(&mut rest, outbox);
    let ghost orig = rest@;
    let ghost mut k: int = 0;
    let mut kept: Vec<OutboxEntry> = Vec::new();
    assert(orig.skip(0) =~= orig);
    assert(orig.take(0) =~= Seq::<OutboxEntry>::empty());
    while rest.len() > 0
        invariant
            0 <= k <= orig.len(),
            rest@ == orig.skip(k),
            kept@ == without_entries(orig.take(k), peer_id@, kind@),
        decreases rest@.len(),
    {
        let e = rest.remove(0);
        proof {
            assert(orig.take(k + 1).drop_last() =~= orig.take(k));
            assert(orig.take(k + 1).last() == e);
        }
        let same = str_eq(e.peer_id.as_str(), peer_id) && str_eq(e.kind.as_str(), kind);
        if !same {
            kept.push(e);
        }
        proof {
            k = k + 1;
        }
        assert(rest@ =~= orig.skip(k));
    }
    assert(orig.take(k) =~= orig);
    *outbox = kept;
}

/// Queue an outgoing request: it replaces any earlier request to the same peer.
pub fn queue_request(outbox: &mut Vec<OutboxEntry>, entry: OutboxEntry)
    ensures
        final(outbox)@ == without_entries(old(outbox)@, entry.peer_id@, "request"@).push(entry),
{
    remove_entries(outbox, entry.peer_id.as_str(), "request");
    outbox.push(entry);
}

/// Queue an acceptance: it replaces any earlier acceptance to the same peer,
/// and is kept only while it still awaits delivery.
pub fn queue_accept(outbox: &mut Vec<OutboxEntry>, entry: OutboxEntry)
    ensures
        entry.delivered ==> final(outbox)@ == without_entries(
            old(outbox)@,
            entry.peer_id@,
            "accept"@,
        ),
        !entry.delivered ==> final(outbox)@ == without_entries(
            old(outbox)@,
            entry.peer_id@,
            "accept"@,
        ).push(entry),
{
    remove_entries(outbox, entry.peer_id.as_str(), "accept");
    if !entry.delivered {
        outbox.push(entry);
    }
}

/// Withdraw our pending request to `peer_id` (also what consuming their
/// acceptance does).
pub fn withdraw_request(outbox: &mut Vec<OutboxEntry>, peer_id: &str)
    ensures
        final(outbox)@ == without_entries(old(outbox)@, peer_id@, "request"@),
{
    remove_entries(outbox, peer_id, "request");
}

/// A delivered acceptance: nothing further will arrive for it.
pub open spec fn spent_accept(e: OutboxEntry) -> bool {
    e.kind@ == "accept"@ && e.delivered
}

/// The outbox without its spent acceptances, in order.
pub open spec fn without_spent(s: Seq<OutboxEntry>) -> Seq<OutboxEntry>
    decreases s.len(),
{
    if s.len() == 0 {
        Seq::empty()
    } else if spent_accept(s.last()) {
        without_spent(s.drop_last())
    } else {
        without_spent(s.drop_last()).push(s.last())
    }
}

proof fn lemma_without_spent_len(s: Seq<OutboxEntry>)
    ensures
        without_spent(s).len() <= s.len(),
        without_spent(s).len() == s.len() <==> forall|i: int| 0 <= i < s.len() ==> !spent_accept(
            #[trigger] s[i],
        ),
    decreases s.len(),
{
    if s.len() > 0 {
        lemma_without_spent_len(s.drop_last());
        if spent_accept(s.last()) {
            assert(!(forall|i: int| 0 <= i < s.len() ==> !spent_accept(#[trigger] s[i]))) by {
                assert(s[s.len() - 1] == s.last());
            }
        } else {
            assert((forall|i: int| 0 <= i < s.len() ==> !spent_accept(#[trigger] s[i])) <==> (
            forall|i: int| 0 <= i < s.drop_last().len() ==> !spent_accept(
                #[trigger] s.drop_last()[i],
            ))) by {
                if forall|i: int| 0 <= i < s.drop_last().len() ==> !spent_accept(
                    #[trigger] s.drop_last()[i],
                ) {
                    assert forall|i: int| 0 <= i < s.len() implies !spent_accept(
                        #[trigger] s[i],
                    ) by {
                        if i < s.len() - 1 {
                            assert(s[i] == s.drop_last()[i]);
                        }
                    }
                }
                if forall|i: int| 0 <= i < s.len() ==> !spent_accept(#[trigger] s[i]) {
                    assert forall|i: int| 0 <= i < s.drop_last().len() implies !spent_accept(
                        #[trigger] s.drop_last()[i],
                    ) by {
                        assert(s[i] == s.drop_last()[i]);
                    }
                }
            }
        }
    }
}

/// Drop the delivered acceptances; says whether anything was dropped.
pub fn drop_delivered_accepts(outbox: &mut Vec<OutboxEntry>) -> (changed: bool)
    ensures
        final(outbox)@ == without_spent(old(outbox)@),
        changed == (final(outbox)@.len() != old(outbox)@.len()),
{
    let mut rest: Vec<OutboxEntry> = Vec::new();
    std::mem::swap(&mut rest, outbox);
    let ghost orig = rest@;
    let ghost mut k: int = 0;
    let n = rest.len();
    let mut kept: Vec<OutboxEntry> = Vec::new();
    assert(orig.skip(0) =~= orig);
    assert(orig.take(0) =~= Seq::<OutboxEntry>::empty());
    while rest.len() > 0
        invariant
            0 <= k <= orig.len(),
            n == orig.len(),
            rest@ == orig.skip(k),
            kept@ == without_spent(orig.take(k)),
        decreases rest@.len(),
    {
        let e = rest.remove(0);
        proof {
            assert(orig.take(k + 1).drop_last() =~= orig.take(k));
            assert(orig.take(k + 1).last() == e);
        }
        let spent = e.delivered && str_eq(e.kind.as_str(), "accept");
        if !spent {
            kept.push(e);
        }
        proof {
            k = k + 1;
        }
        assert(rest@ =~= orig.skip(k));
    }
    assert(orig.take(k) =~= orig);
    proof {
        lemma_without_spent_len(orig);
    }
    let changed = kept.len() != n;
    *outbox = kept;
    changed
}

/// Prepare a retry round: every entry still awaiting delivery that has no
/// display name gets `my_display`; the result lists those entries' indices in
/// increasing order. Nothing else changes.
pub fn prepare_retry(outbox: &mut Vec<OutboxEntry>, my_display: &str) -> (due: Vec<usize>)
    ensures
        final(outbox)@.len() == old(outbox)@.len(),
        forall|i: int|
            0 <= i < old(outbox)@.len() ==> {
                let a = #[trigger] old(outbox)@[i];
                let b = final(outbox)@[i];
                &&& b.peer_id == a.peer_id
                &&& b.peer_code == a.peer_code
                &&& b.peer_name == a.peer_name
                &&& b.kind == a.kind
                &&& b.sent_at_ms == a.sent_at_ms
                &&& b.delivered == a.delivered
                &&& (!a.delivered && a.my_display@.len() == 0 ==> b.my_display@ == my_display@)
                &&& (a.delivered || a.my_display@.len() != 0 ==> b.my_display == a.my_display)
            },
        forall|i: int|
            0 <= i < old(outbox)@.len() ==> (!(#[trigger] old(outbox)@[i]).delivered
                <==> due@.contains(i as usize)),
        forall|j: int, m: int| 0 <= j < m < due@.len() ==> due@[j] < due@[m],
        forall|j: int| 0 <= j < due@.len() ==> due@[j] < old(outbox)@.len(),
{
    let ghost orig = outbox@;
    let n = outbox.len();
    let mut due: Vec<usize> = Vec::new();
    let mut i: usize = 0;
    while i < n
        invariant
            n == orig.len(),
            outbox@.len() == n,
            i <= n,
            forall|m: int|
                i <= m < n ==> #[trigger] outbox@[m] == orig[m],
            forall|m: int|
                0 <= m < i ==> {
                    let a = #[trigger] orig[m];
                    let b = outbox@[m];
                    &&& b.peer_id == a.peer_id
                    &&& b.peer_code == a.peer_code
                    &&& b.peer_name == a.peer_name
                    &&& b.kind == a.kind
                    &&& b.sent_at_ms == a.sent_at_ms
                    &&& b.delivered == a.delivered
                    &&& (!a.delivered && a.my_display@.len() == 0 ==> b.my_display@
                        == my_display@)
                    &&& (a.delivered || a.my_display@.len() != 0 ==> b.my_display
                        == a.my_display)
                },
            forall|m: int| 0 <= m < i ==> (!(#[trigger] orig[m]).delivered <==> due@.contains(m as usize)),
            forall|j: int, m: int| 0 <= j < m < due@.len() ==> due@[j] < due@[m],
            forall|j: int| 0 <= j < due@.len() ==> due@[j] < i,
        decreases n - i,
    {
        let ghost ob = outbox@;
        if !outbox[i].delivered {
            proof {
                reveal_strlit("");
                if ob[i as int].my_display@.len() == 0 {
                    assert(ob[i as int].my_display@ =~= ""@);
                }
            }
            if str_eq(outbox[i].my_display.as_str(), "") {
                let mut e = outbox.remove(i);
                e.my_display = my_display.to_owned();
                outbox.insert(i, e);
                assert(outbox@ =~= ob.update(i as int, outbox@[i as int]));
            }
            let ghost before = due@;
            due.push(i);
            proof {
                assert forall|m: int| 0 <= m < i + 1 implies (!(#[trigger] orig[m]).delivered
                    <==> due@.contains(m as usize)) by {
                    if m < i {
                        if before.contains(m as usize) {
                            let j = choose|j: int| 0 <= j < before.len() && before[j] == m as usize;
                            assert(due@[j] == m as usize);
                        }
                        if due@.contains(m as usize) {
                            let j = choose|j: int| 0 <= j < due@.len() && due@[j] == m as usize;
                            if j < before.len() {
                                assert(before[j] == m as usize);
                            }
                        }
                    } else {
                        assert(due@[before.len() as int] == i);
                    }
                }
            }
        } else {
            proof {
                assert(!due@.contains(i));
            }
        }
        assert(forall|m: int| 0 <= m < n && m != i ==> outbox@[m] == ob[m]);
        i = i + 1;
    }
    due
}

/// Mark entry `i` delivered.
pub fn mark_delivered(outbox: &mut Vec<OutboxEntry>, i: usize)
    requires
        i < old(outbox)@.len(),
    ensures
        final(outbox)@.len() == old(outbox)@.len(),
        forall|m: int| 0 <= m < old(outbox)@.len() && m != i ==> #[trigger] final(outbox)@[m] == old(outbox)@[m],
        final(outbox)@[i as int].delivered,
        final(outbox)@[i as int].peer_id == old(outbox)@[i as int].peer_id,
        final(outbox)@[i as int].peer_code == old(outbox)@[i as int].peer_code,
        final(outbox)@[i as int].peer_name == old(outbox)@[i as int].peer_name,
        final(outbox)@[i as int].kind == old(outbox)@[i as int].kind,
        final(outbox)@[i as int].my_display == old(outbox)@[i as int].my_display,
        final(outbox)@[i as int].sent_at_ms == old(outbox)@[i as int].sent_at_ms,
{
    let mut e = outbox.remove(i);
    e.delivered = true;
    outbox.insert(i, e);
}

/// The outbox's requests, in order.
pub open spec fn requests_of(s: Seq<OutboxEntry>) -> Seq<OutboxEntry>
    decreases s.len(),
{
    if s.len() == 0 {
        Seq::empty()
    } else if s.last().kind@ == "request"@ {
        requests_of(s.drop_last()).push(s.last())
    } else {
        requests_of(s.drop_last())
    }
}

/// How a pending request is shown.
pub open spec fn shows_request(d: PendingSentDto, e: OutboxEntry) -> bool {
    &&& d.peer_id == e.peer_id
    &&& d.name == e.peer_name
    &&& d.fingerprint@ == hex_fingerprint_spec(e.peer_id@)
    &&& d.delivered == e.delivered
    &&& d.sent_at_ms == e.sent_at_ms
}

/// The "Pending sent" list: one row per queued request, in outbox order.
pub fn pending_view(outbox: &[OutboxEntry]) -> (out: Vec<PendingSentDto>)
    ensures
        out@.len() == requests_of(outbox@).len(),
        forall|i: int| 0 <= i < out@.len() ==> shows_request(#[trigger] out@[i], requests_of(outbox@)[i]),
{
    let mut out: Vec<PendingSentDto> = Vec::new();
    let mut k: usize = 0;
    while k < outbox.len()
        invariant
            k <= outbox@.len(),
            out@.len() == requests_of(outbox@.take(k as int)).len(),
            forall|i: int| 0 <= i < out@.len() ==> shows_request(#[trigger] out@[i], requests_of(outbox@.take(k as int))[i]),
        decreases outbox@.len() - k,
    {
        let e = &outbox[k];
        let ghost before = outbox@.take(k as int);
        proof {
            assert(outbox@.take(k + 1).drop_last() =~= before);
            assert(outbox@.take(k + 1).last() == *e);
        }
        if str_eq(e.kind.as_str(), "request") {
            out.push(PendingSentDto {
                peer_id: e.peer_id.clone(),
                name: e.peer_name.clone(),
                fingerprint: hex_fingerprint(e.peer_id.as_str()),
                delivered: e.delivered,
                sent_at_ms: e.sent_at_ms,
            });
        }
        k = k + 1;
    }
    assert(outbox@.take(k as int) =~= outbox@);
    out
}

/// What a sync does with a parked row, given its code decoded (`None` when it
/// does not decode) and our friend-request policy. "No one" refuses silently;
/// the other policies show the request for manual review.
pub fn parked_action(row: ParkedRequest, decoded: Option<ContactCodeParts>, policy: FriendRequestPolicy) -> (a: ParkedAction)
    ensures
        (decoded is None || decoded->0.identity_pubkey@.len() != 32) <==> a is Discard,
        a matches ParkedAction::Accepted { peer_id, code } ==> {
            &&& row.kind@ == "accept"@
            &&& peer_id@ == hex_spec(decoded->0.identity_pubkey@)
            &&& code == row.contact_code
        },
        (decoded is Some && decoded->0.identity_pubkey@.len() == 32) ==> {
            &&& (row.kind@ == "accept"@ <==> a is Accepted)
            &&& (a is Refuse <==> row.kind@ != "accept"@ && policy == FriendRequestPolicy::NoOne)
        },
        a matches ParkedAction::Show(d) ==> {
            &&& d.id == row.id
            &&& d.name@ == name_or_unknown(decoded->0.name)
            &&& d.fingerprint@ == key_fingerprint_spec(decoded->0.identity_pubkey@)
            &&& d.code == row.contact_code
            &&& d.created_at_ms == row.created_at_ms
        },
{
    let code = match decoded {
        Some(c) => c,
        None => return ParkedAction::Discard,
    };
    let (target, identity) = match target_from_code(code) {
        Ok(t) => t,
        Err(_) => return ParkedAction::Discard,
    };
    if str_eq(row.kind.as_str(), "accept") {
        return ParkedAction::Accepted { peer_id: to_hex(identity.as_slice()), code: row.contact_code };
    }
    match policy {
        FriendRequestPolicy::NoOne => ParkedAction::Refuse,
        _ => ParkedAction::Show(IncomingRequestDto {
            id: row.id,
            name: target.name,
            fingerprint: fingerprint(identity.as_slice()),
            code: row.contact_code,
            created_at_ms: row.created_at_ms,
        }),
    }
}

/// At most one queued request per peer.
pub open spec fn one_request_per_peer(s: Seq<OutboxEntry>) -> bool {
    forall|i: int, j: int|
        0 <= i < j < s.len() && (#[trigger] s[i]).kind@ == "request"@ && (#[trigger] s[j]).kind@
            == "request"@ ==> s[i].peer_id@ != s[j].peer_id@
}

proof fn lemma_without_entries_from(s: Seq<OutboxEntry>, peer: Seq<char>, kind: Seq<char>)
    ensures
        forall|x: OutboxEntry| #[trigger] without_entries(s, peer, kind).contains(x) ==> s.contains(x) && !is_entry(x, peer, kind),
        one_request_per_peer(s) ==> one_request_per_peer(without_entries(s, peer, kind)),
    decreases s.len(),
{
    if s.len() > 0 {
        let t = s.drop_last();
        lemma_without_entries_from(t, peer, kind);
        let w = without_entries(t, peer, kind);
        assert forall|x: OutboxEntry| #[trigger] without_entries(s, peer, kind).contains(x) implies s.contains(x) && !is_entry(x, peer, kind) by {
            if w.contains(x) {
                let i = choose|i: int| 0 <= i < t.len() && t[i] == x;
                assert(s[i] == x);
            } else {
                assert(x == s.last());
                assert(s[s.len() - 1] == x);
            }
        }
        if one_request_per_peer(s) && !is_entry(s.last(), peer, kind) {
            let ws = w.push(s.last());
            assert(one_request_per_peer(t)) by {
                assert forall|i: int, j: int| 0 <= i < j < t.len() && (#[trigger] t[i]).kind@ == "request"@ && (#[trigger] t[j]).kind@ == "request"@ implies t[i].peer_id@ != t[j].peer_id@ by {
                    assert(s[i] == t[i] && s[j] == t[j]);
                }
            }
            assert forall|i: int, j: int| 0 <= i < j < ws.len() && (#[trigger] ws[i]).kind@ == "request"@ && (#[trigger] ws[j]).kind@ == "request"@ implies ws[i].peer_id@ != ws[j].peer_id@ by {
                if j < w.len() {
                    assert(ws[i] == w[i] && ws[j] == w[j]);
                } else {
                    assert(ws[i] == w[i]);
                    assert(w.contains(w[i]));
                    let k = choose|k: int| 0 <= k < t.len() && t[k] == w[i];
                    assert(s[k] == t[k]);
                    assert(s[s.len() - 1] == s.last());
                }
            }
        }
    }
}

/// Queuing a request keeps at most one request per peer, and leaves the new
/// entry as the only request to its peer.
pub proof fn lemma_queue_request_unique(outbox: Seq<OutboxEntry>, entry: OutboxEntry)
    requires
        one_request_per_peer(outbox),
        entry.kind@ == "request"@,
    ensures
        one_request_per_peer(without_entries(outbox, entry.peer_id@, "request"@).push(entry)),
        forall|i: int|
            0 <= i < without_entries(outbox, entry.peer_id@, "request"@).len() ==> !is_entry(
                #[trigger] without_entries(outbox, entry.peer_id@, "request"@)[i],
                entry.peer_id@,
                "request"@,
            ),
{
    let w = without_entries(outbox, entry.peer_id@, "request"@);
    lemma_without_entries_from(outbox, entry.peer_id@, "request"@);
    assert forall|i: int| 0 <= i < w.len() implies !is_entry(#[trigger] w[i], entry.peer_id@, "request"@) by {
        assert(w.contains(w[i]));
    }
    let ws = w.push(entry);
    assert forall|i: int, j: int| 0 <= i < j < ws.len() && (#[trigger] ws[i]).kind@ == "request"@ && (#[trigger] ws[j]).kind@ == "request"@ implies ws[i].peer_id@ != ws[j].peer_id@ by {
        if j < w.len() {
            assert(ws[i] == w[i] && ws[j] == w[j]);
        } else {
            assert(ws[i] == w[i]);
            assert(!is_entry(w[i], entry.peer_id@, "request"@));
        }
    }
}

/// Withdrawing (or consuming an acceptance for) a peer's request leaves no
/// request to that peer and keeps at most one per peer.
pub proof fn lemma_withdraw_request(outbox: Seq<OutboxEntry>, peer: Seq<char>)
    ensures
        forall|i: int|
            0 <= i < without_entries(outbox, peer, "request"@).len() ==> !is_entry(
                #[trigger] without_entries(outbox, peer, "request"@)[i],
                peer,
                "request"@,
            ),
        one_request_per_peer(outbox) ==> one_request_per_peer(without_entries(outbox, peer, "request"@)),
{
    let w = without_entries(outbox, peer, "request"@);
    lemma_without_entries_from(outbox, peer, "request"@);
    assert forall|i: int| 0 <= i < w.len() implies !is_entry(#[trigger] w[i], peer, "request"@) by {
        assert(w.contains(w[i]));
    }
}

proof fn lemma_without_spent_from(s: Seq<OutboxEntry>)
    ensures
        forall|x: OutboxEntry| #[trigger] without_spent(s).contains(x) ==> s.contains(x),
        one_request_per_peer(s) ==> one_request_per_peer(without_spent(s)),
    decreases s.len(),
{
    if s.len() > 0 {
        let t = s.drop_last();
        lemma_without_spent_from(t);
        let w = without_spent(t);
        assert forall|x: OutboxEntry| #[trigger] without_spent(s).contains(x) implies s.contains(x) by {
            if w.contains(x) {
                let i = choose|i: int| 0 <= i < t.len() && t[i] == x;
                assert(s[i] == x);
            } else {
                assert(s[s.len() - 1] == x);
            }
        }
        if one_request_per_peer(s) && !spent_accept(s.last()) {
            let ws = w.push(s.last());
            assert(one_request_per_peer(t)) by {
                assert forall|i: int, j: int| 0 <= i < j < t.len() && (#[trigger] t[i]).kind@ == "request"@ && (#[trigger] t[j]).kind@ == "request"@ implies t[i].peer_id@ != t[j].peer_id@ by {
                    assert(s[i] == t[i] && s[j] == t[j]);
                }
            }
            assert forall|i: int, j: int| 0 <= i < j < ws.len() && (#[trigger] ws[i]).kind@ == "request"@ && (#[trigger] ws[j]).kind@ == "request"@ implies ws[i].peer_id@ != ws[j].peer_id@ by {
                if j < w.len() {
                    assert(ws[i] == w[i] && ws[j] == w[j]);
                } else {
                    assert(ws[i] == w[i]);
                    assert(w.contains(w[i]));
                    let k = choose|k: int| 0 <= k < t.len() && t[k] == w[i];
                    assert(s[k] == t[k]);
                    assert(s[s.len() - 1] == s.last());
                }
            }
        }
    }
}

/// Queuing an acceptance and dropping spent acceptances keep at most one
/// request per peer.
pub proof fn lemma_accepts_keep_unique(outbox: Seq<OutboxEntry>, entry: OutboxEntry)
    requires
        one_request_per_peer(outbox),
        entry.kind@ == "accept"@,
    ensures
        one_request_per_peer(without_entries(outbox, entry.peer_id@, "accept"@)),
        one_request_per_peer(without_entries(outbox, entry.peer_id@, "accept"@).push(entry)),
        one_request_per_peer(without_spent(outbox)),
{
    lemma_without_entries_from(outbox, entry.peer_id@, "accept"@);
    lemma_without_spent_from(outbox);
    reveal_strlit("accept");
    reveal_strlit("request");
    let w = without_entries(outbox, entry.peer_id@, "accept"@);
    let ws = w.push(entry);
    assert(entry.kind@ != "request"@) by {
        assert(entry.kind@[0] != "request"@[0]);
    }
    assert forall|i: int, j: int| 0 <= i < j < ws.len() && (#[trigger] ws[i]).kind@ == "request"@ && (#[trigger] ws[j]).kind@ == "request"@ implies ws[i].peer_id@ != ws[j].peer_id@ by {
        if j < w.len() {
            assert(ws[i] == w[i] && ws[j] == w[j]);
        }
    }
}

/// Whether a parked row's code decoded to a usable identity.
pub open spec fn row_valid(decoded: Option<ContactCodeParts>) -> bool {
    decoded is Some && decoded->0.identity_pubkey@.len() == 32
}

/// Whether a parked row is shown for review (see [`parked_action`]).
pub open spec fn row_shown(row: ParkedRequest, decoded: Option<ContactCodeParts>, policy: FriendRequestPolicy) -> bool {
    row_valid(decoded) && row.kind@ != "accept"@ && policy != FriendRequestPolicy::NoOne
}

/// Whether a parked row is an acceptance of our request (see [`parked_action`]).
pub open spec fn row_accepted(row: ParkedRequest, decoded: Option<ContactCodeParts>) -> bool {
    row_valid(decoded) && row.kind@ == "accept"@
}

/// The ids of the rows a sync deletes: every row that is not shown, in order.
pub open spec fn deleted_rows(rows: Seq<(ParkedRequest, Option<ContactCodeParts>)>, policy: FriendRequestPolicy) -> Seq<Seq<char>>
    decreases rows.len(),
{
    if rows.len() == 0 {
        Seq::empty()
    } else if row_shown(rows.last().0, rows.last().1, policy) {
        deleted_rows(rows.drop_last(), policy)
    } else {
        deleted_rows(rows.drop_last(), policy).push(rows.last().0.id@)
    }
}

/// The rows a sync shows, in order.
pub open spec fn shown_rows(rows: Seq<(ParkedRequest, Option<ContactCodeParts>)>, policy: FriendRequestPolicy) -> Seq<(ParkedRequest, Option<ContactCodeParts>)>
    decreases rows.len(),
{
    if rows.len() == 0 {
        Seq::empty()
    } else if row_shown(rows.last().0, rows.last().1, policy) {
        shown_rows(rows.drop_last(), policy).push(rows.last())
    } else {
        shown_rows(rows.drop_last(), policy)
    }
}

/// The contact codes of the acceptances, in order.
pub open spec fn accepted_codes(rows: Seq<(ParkedRequest, Option<ContactCodeParts>)>) -> Seq<Seq<char>>
    decreases rows.len(),
{
    if rows.len() == 0 {
        Seq::empty()
    } else if row_accepted(rows.last().0, rows.last().1) {
        accepted_codes(rows.drop_last()).push(rows.last().0.contact_code@)
    } else {
        accepted_codes(rows.drop_last())
    }
}

/// The outbox once every accepted peer's pending request is completed.
pub open spec fn outbox_after_accepts(outbox: Seq<OutboxEntry>, rows: Seq<(ParkedRequest, Option<ContactCodeParts>)>) -> Seq<OutboxEntry>
    decreases rows.len(),
{
    if rows.len() == 0 {
        outbox
    } else if row_accepted(rows.last().0, rows.last().1) {
        without_entries(
            outbox_after_accepts(outbox, rows.drop_last()),
            hex_spec(rows.last().1->0.identity_pubkey@),
            "request"@,
        )
    } else {
        outbox_after_accepts(outbox, rows.drop_last())
    }
}

/// Whether `d` shows the parked row `row` whose code decoded to `decoded`.
pub open spec fn shows_row(d: IncomingRequestDto, row: ParkedRequest, decoded: Option<ContactCodeParts>) -> bool {
    &&& d.id == row.id
    &&& d.name@ == name_or_unknown(decoded->0.name)
    &&& d.fingerprint@ == key_fingerprint_spec(decoded->0.identity_pubkey@)
    &&& d.code == row.contact_code
    &&& d.created_at_ms == row.created_at_ms
}

/// What a sync over all parked rows gives.
pub struct ParkedSync {
    /// The requests to show, in order.
    pub incoming: Vec<IncomingRequestDto>,
    /// The ids of the rows to delete from the home node, in order.
    pub delete: Vec<String>,
    /// The contact codes of the peers who accepted us, to add as contacts.
    pub accepted: Vec<String>,
}

/// Go through every parked row in order (each decoded by the caller): garbage
/// rows, refused requests and acceptances are deleted; an acceptance also adds
/// the peer and completes our pending request to them in `outbox`; the other
/// requests are shown.
pub fn sync_parked(
    rows: Vec<(ParkedRequest, Option<ContactCodeParts>)>,
    policy: FriendRequestPolicy,
    outbox: &mut Vec<OutboxEntry>,
) -> (r: ParkedSync)
    ensures
        r.delete@.map_values(|x: String| x@) == deleted_rows(rows@, policy),
        r.accepted@.map_values(|x: String| x@) == accepted_codes(rows@),
        r.incoming@.len() == shown_rows(rows@, policy).len(),
        forall|i: int| 0 <= i < r.incoming@.len() ==> shows_row(
            #[trigger] r.incoming@[i],
            shown_rows(rows@, policy)[i].0,
            shown_rows(rows@, policy)[i].1,
        ),
        final(outbox)@ == outbox_after_accepts(old(outbox)@, rows@),
{
    let ghost orig = rows@;
    let ghost f = |x: String| x@;
    let mut rows = rows;
    let n0 = rows.len();
    assert(orig.len() == n0);
    assert(orig.skip(0) =~= orig);
    assert(orig.take(0) =~= Seq::<(ParkedRequest, Option<ContactCodeParts>)>::empty());
    let mut incoming: Vec<IncomingRequestDto> = Vec::new();
    let mut delete: Vec<String> = Vec::new();
    let mut accepted: Vec<String> = Vec::new();
    let mut k: usize = 0;
    while rows.len() > 0
        invariant
            f == (|x: String| x@),
            k <= orig.len(),
            orig.len() <= usize::MAX,
            rows@ == orig.skip(k as int),
            delete@.map_values(f) == deleted_rows(orig.take(k as int), policy),
            accepted@.map_values(f) == accepted_codes(orig.take(k as int)),
            incoming@.len() == shown_rows(orig.take(k as int), policy).len(),
            forall|i: int| 0 <= i < incoming@.len() ==> shows_row(
                #[trigger] incoming@[i],
                shown_rows(orig.take(k as int), policy)[i].0,
                shown_rows(orig.take(k as int), policy)[i].1,
            ),
            outbox@ == outbox_after_accepts(old(outbox)@, orig.take(k as int)),
        decreases rows@.len(),
    {
        let (row, decoded) = rows.remove(0);
        let ghost pre = orig.take(k as int);
        proof {
            assert(orig.take(k + 1).drop_last() =~= pre);
            assert(orig.take(k + 1).last() == orig[k as int]);
            assert(orig[k as int] == (row, decoded));
            assert(rows@ =~= orig.skip(k + 1));
        }
        let id = row.id.clone();
        let ghost row0 = row;
        let ghost dec0 = decoded;
        let ghost d_before = delete@;
        let ghost a_before = accepted@;
        let ghost i_before = incoming@;
        match parked_action(row, decoded, policy) {
            ParkedAction::Discard => {
                delete.push(id);
            },
            ParkedAction::Refuse => {
                delete.push(id);
            },
            ParkedAction::Accepted { peer_id, code } => {
                remove_entries(outbox, peer_id.as_str(), "request");
                accepted.push(code);
                delete.push(id);
                proof {
                    assert(accepted@.map_values(f) =~= a_before.map_values(f).push(row0.contact_code@));
                }
            },
            ParkedAction::Show(d) => {
                incoming.push(d);
                proof {
                    assert(incoming@[i_before.len() as int] == d);
                }
            },
        }
        proof {
            if delete@.len() > d_before.len() {
                assert(delete@.map_values(f) =~= d_before.map_values(f).push(row0.id@));
            }
            assert(shown_rows(orig.take(k + 1), policy) == (if row_shown(row0, dec0, policy) {
                shown_rows(pre, policy).push((row0, dec0))
            } else {
                shown_rows(pre, policy)
            }));
        }
        k = k + 1;
    }
    proof {
        assert(orig.take(k as int) =~= orig);
    }
    ParkedSync { incoming, delete, accepted }
}

} // verus!

//! Contacts: the locally stored contact list, its lookups and updates.
//!
//! A contact is keyed by its contact-identity public key; its id in the UI is
//! the lowercase hex of that key.

use vstd::prelude::*;
use crate::hex::{hex_spec, to_hex};
use crate::identity::{ed25519_valid_point_spec, fingerprint_spec, IdentityPublicKey};
use crate::text::{concat_str, decimal_spec, push_decimal, str_eq};
use crate::strset::views;
use crate::strset::{clone_opt_string, clone_strings};


verus! {

/// A stored contact.
#[derive(Debug, Clone)]
pub struct StoredContact {
    pub pubkey: Vec<u8>,
    pub name: String,
    pub addresses: Vec<String>,
    pub cert: Option<String>,
    pub host_user_id: Option<String>,
    pub verified: bool,
}

/// The decoded content of a pasted contact code.
#[derive(Debug, Clone)]
pub struct ContactCodeParts {
    pub identity_pubkey: Vec<u8>,
    pub name: Option<String>,
    pub addresses: Vec<String>,
    pub cert: Option<String>,
    pub host_user_id: Option<String>,
}

/// Everything needed to open a DM on a contact's host.
pub struct ContactTarget {
    pub name: String,
    pub addresses: Vec<String>,
    pub cert: Option<String>,
    pub host_user_id: Option<String>,
}

/// A contact as shown in the UI.
#[derive(Debug, Clone)]
pub struct ContactDto {
    /// Hex of the contact's public key: the stable id used to verify/remove.
    pub id: String,
    pub name: String,
    /// Short fingerprint to compare out of band.
    pub fingerprint: String,
    pub addresses: Vec<String>,
    pub verified: bool,
}

/// The fingerprint shown for a stored key: the public-key fingerprint of a
/// valid 32-byte key, empty otherwise.
pub open spec fn key_fingerprint_spec(pubkey: Seq<u8>) -> Seq<char> {
    if pubkey.len() == 32 && ed25519_valid_point_spec(pubkey) {
        fingerprint_spec(pubkey)
    } else {
        Seq::empty()
    }
}

/// Short fingerprint of a contact public key (empty if malformed).
pub fn fingerprint(pubkey: &[u8]) -> (s: String)
    ensures
        s@ == key_fingerprint_spec(pubkey@),
{
    if pubkey.len() != 32 {
        return String::new();
    }
    let arr: [u8; 32] = [
        pubkey[0], pubkey[1], pubkey[2], pubkey[3], pubkey[4], pubkey[5], pubkey[6], pubkey[7],
        pubkey[8], pubkey[9], pubkey[10], pubkey[11], pubkey[12], pubkey[13], pubkey[14], pubkey[15],
        pubkey[16], pubkey[17], pubkey[18], pubkey[19], pubkey[20], pubkey[21], pubkey[22], pubkey[23],
        pubkey[24], pubkey[25], pubkey[26], pubkey[27], pubkey[28], pubkey[29], pubkey[30], pubkey[31],
    ];
    assert(arr@ =~= pubkey@);
    match IdentityPublicKey::from_bytes(&arr) {
        Ok(pk) => pk.fingerprint(),
        Err(_) => String::new(),
    }
}

/// The UI form of a stored contact.
pub fn to_dto(c: StoredContact) -> (d: ContactDto)
    ensures
        d.id@ == hex_spec(c.pubkey@),
        d.fingerprint@ == key_fingerprint_spec(c.pubkey@),
        d.name == c.name,
        d.addresses == c.addresses,
        d.verified == c.verified,
{
    ContactDto {
        id: to_hex(c.pubkey.as_slice()),
        fingerprint: fingerprint(c.pubkey.as_slice()),
        name: c.name,
        addresses: c.addresses,
        verified: c.verified,
    }
}

/// The index of the first contact whose id (hex of its key) is `id`, or -1.
pub open spec fn index_of_id(contacts: Seq<StoredContact>, id: Seq<char>) -> int
    decreases contacts.len(),
{
    if contacts.len() == 0 {
        -1
    } else if index_of_id(contacts.drop_last(), id) >= 0 {
        index_of_id(contacts.drop_last(), id)
    } else if hex_spec(contacts.last().pubkey@) == id {
        contacts.len() - 1
    } else {
        -1
    }
}

/// The index of the first contact with public key `key`, or -1.
pub open spec fn index_of_key(contacts: Seq<StoredContact>, key: Seq<u8>) -> int
    decreases contacts.len(),
{
    if contacts.len() == 0 {
        -1
    } else if index_of_key(contacts.drop_last(), key) >= 0 {
        index_of_key(contacts.drop_last(), key)
    } else if contacts.last().pubkey@ == key {
        contacts.len() - 1
    } else {
        -1
    }
}

proof fn lemma_index_of_id_range(contacts: Seq<StoredContact>, id: Seq<char>)
    ensures
        -1 <= index_of_id(contacts, id) < contacts.len(),
        index_of_id(contacts, id) >= 0 ==> hex_spec(contacts[index_of_id(contacts, id)].pubkey@) == id,
    decreases contacts.len(),
{
    if contacts.len() > 0 {
        lemma_index_of_id_range(contacts.drop_last(), id);
    }
}

proof fn lemma_index_of_key_range(contacts: Seq<StoredContact>, key: Seq<u8>)
    ensures
        -1 <= index_of_key(contacts, key) < contacts.len(),
        index_of_key(contacts, key) >= 0 ==> contacts[index_of_key(contacts, key)].pubkey@ == key,
    decreases contacts.len(),
{
    if contacts.len() > 0 {
        lemma_index_of_key_range(contacts.drop_last(), key);
    }
}

/// The first contact whose id is `id`.
fn find_by_id(contacts: &[StoredContact], id: &str) -> (r: Option<usize>)
    ensures
        match r {
            Some(k) => k as int == index_of_id(contacts@, id@) && k < contacts@.len(),
            None => index_of_id(contacts@, id@) == -1,
        },
{
    let mut k: usize = 0;
    while k < contacts.len()
        invariant
            k <= contacts@.len(),
            index_of_id(contacts@.take(k as int), id@) == -1,
        decreases contacts@.len() - k,
    {
        let hex = to_hex(contacts[k].pubkey.as_slice());
        assert(contacts@.take(k + 1).drop_last() =~= contacts@.take(k as int));
        if str_eq(hex.as_str(), id) {
            proof { lemma_index_prefix_id(contacts@, id@, k as int); }
            return Some(k);
        }
        k = k + 1;
    }
    assert(contacts@.take(k as int) =~= contacts@);
    None
}

proof fn lemma_index_prefix_id(contacts: Seq<StoredContact>, id: Seq<char>, k: int)
    requires
        0 <= k < contacts.len(),
        index_of_id(contacts.take(k), id) == -1,
        hex_spec(contacts[k].pubkey@) == id,
    ensures
        index_of_id(contacts, id) == k,
    decreases contacts.len(),
{
    if k < contacts.len() - 1 {
        assert(contacts.drop_last().take(k) =~= contacts.take(k));
        lemma_index_prefix_id(contacts.drop_last(), id, k);
    } else {
        assert(contacts.drop_last() =~= contacts.take(k));
    }
}

proof fn lemma_index_prefix_key(contacts: Seq<StoredContact>, key: Seq<u8>, k: int)
    requires
        0 <= k < contacts.len(),
        index_of_key(contacts.take(k), key) == -1,
        contacts[k].pubkey@ == key,
    ensures
        index_of_key(contacts, key) == k,
    decreases contacts.len(),
{
    if k < contacts.len() - 1 {
        assert(contacts.drop_last().take(k) =~= contacts.take(k));
        lemma_index_prefix_key(contacts.drop_last(), key, k);
    } else {
        assert(contacts.drop_last() =~= contacts.take(k));
    }
}

/// Whether two byte strings are equal.
pub fn bytes_eq(a: &[u8], b: &[u8]) -> (same: bool)
    ensures
        same == (a@ == b@),
{
    if a.len() != b.len() {
        return false;
    }
    let mut k: usize = 0;
    while k < a.len()
        invariant
            a@.len() == b@.len(),
            k <= a@.len(),
            forall|m: int| 0 <= m < k ==> a@[m] == b@[m],
        decreases a@.len() - k,
    {
        if a[k] != b[k] {
            return false;
        }
        k = k + 1;
    }
    assert(a@ =~= b@);
    true
}

fn find_by_key(contacts: &[StoredContact], key: &[u8]) -> (r: Option<usize>)
    ensures
        match r {
            Some(k) => k as int == index_of_key(contacts@, key@) && k < contacts@.len(),
            None => index_of_key(contacts@, key@) == -1,
        },
{
    let mut k: usize = 0;
    while k < contacts.len()
        invariant
            k <= contacts@.len(),
            index_of_key(contacts@.take(k as int), key@) == -1,
        decreases contacts@.len() - k,
    {
        assert(contacts@.take(k + 1).drop_last() =~= contacts@.take(k as int));
        if bytes_eq(contacts[k].pubkey.as_slice(), key) {
            proof { lemma_index_prefix_key(contacts@, key@, k as int); }
            return Some(k);
        }
        k = k + 1;
    }
    assert(contacts@.take(k as int) =~= contacts@);
    None
}

/// Look up a contact by id (hex of its public key).
pub fn lookup(contacts: &[StoredContact], id: &str) -> (r: Option<ContactTarget>)
    ensures
        r is Some <==> index_of_id(contacts@, id@) >= 0,
        r matches Some(t) ==> {
            let c = contacts@[index_of_id(contacts@, id@)];
            &&& t.name == c.name
            &&& t.addresses@ == c.addresses@
            &&& t.cert == c.cert
            &&& t.host_user_id == c.host_user_id
        },
{
    match find_by_id(contacts, id) {
        Some(k) => {
            let c = &contacts[k];
            Some(ContactTarget {
                name: c.name.clone(),
                addresses: clone_strings(&c.addresses),
                cert: clone_opt_string(&c.cert),
                host_user_id: clone_opt_string(&c.host_user_id),
            })
        },
        None => None,
    }
}

/// The contact an add or update produces from a contact code: the code's name,
/// or "Unknown" when it has none.
pub open spec fn name_or_unknown(name: Option<String>) -> Seq<char> {
    match name {
        Some(n) => n@,
        None => "Unknown"@,
    }
}

/// How the UI shows a stored contact: its key's hex as id, the key's
/// fingerprint, and the contact's name, addresses and verified flag.
pub open spec fn shown_as(d: ContactDto, c: StoredContact) -> bool {
    &&& d.id@ == hex_spec(c.pubkey@)
    &&& d.fingerprint@ == key_fingerprint_spec(c.pubkey@)
    &&& d.name@ == c.name@
    &&& d.addresses@ == c.addresses@
    &&& d.verified == c.verified
}

/// What adding a contact answers is what the contact list then shows for
/// the stored entry: any two UI forms of one stored contact agree on id,
/// name, addresses and verified flag.
pub proof fn lemma_added_contact_shows_as_listed(added: ContactDto, listed: ContactDto, c: StoredContact)
    requires
        shown_as(added, c),
        listed.id@ == hex_spec(c.pubkey@),
        listed.name == c.name,
        listed.addresses == c.addresses,
        listed.verified == c.verified,
    ensures
        added.id@ == listed.id@,
        added.name@ == listed.name@,
        added.addresses@ == listed.addresses@,
        added.verified == listed.verified,
{
}

/// Add (or update, matched by public key) a contact from a decoded contact
/// code. A key that is not 32 bytes is refused. An update keeps the contact's
/// verified flag and position; a new contact is appended unverified.
pub fn add_contact(contacts: &mut Vec<StoredContact>, code: ContactCodeParts) -> (r: Result<ContactDto, String>)
    ensures
        code.identity_pubkey@.len() != 32 <==> r is Err,
        r is Err ==> final(contacts)@ == old(contacts)@,
        r is Ok && index_of_key(old(contacts)@, code.identity_pubkey@) >= 0 ==> {
            let k = index_of_key(old(contacts)@, code.identity_pubkey@);
            let c = final(contacts)@[k];
            &&& final(contacts)@.len() == old(contacts)@.len()
            &&& forall|m: int| 0 <= m < old(contacts)@.len() && m != k ==> final(contacts)@[m] == old(contacts)@[m]
            &&& c.pubkey == old(contacts)@[k].pubkey
            &&& c.name@ == name_or_unknown(code.name)
            &&& c.addresses == code.addresses
            &&& c.cert == code.cert
            &&& c.host_user_id == code.host_user_id
            &&& c.verified == old(contacts)@[k].verified
        },
        r is Ok && index_of_key(old(contacts)@, code.identity_pubkey@) < 0 ==> {
            let c = final(contacts)@.last();
            &&& final(contacts)@.len() == old(contacts)@.len() + 1
            &&& final(contacts)@.drop_last() == old(contacts)@
            &&& c.pubkey == code.identity_pubkey
            &&& c.name@ == name_or_unknown(code.name)
            &&& c.addresses == code.addresses
            &&& c.cert == code.cert
            &&& c.host_user_id == code.host_user_id
            &&& !c.verified
        },
        r matches Ok(d) ==> d.id@ == hex_spec(code.identity_pubkey@) && d.name@ == name_or_unknown(code.name)
            && d.fingerprint@ == key_fingerprint_spec(code.identity_pubkey@),
        r matches Ok(d) ==> d.addresses@ == code.addresses@,
        r matches Ok(d) ==> d.verified == (index_of_key(old(contacts)@, code.identity_pubkey@) >= 0
            && old(contacts)@[index_of_key(old(contacts)@, code.identity_pubkey@)].verified),
        r matches Ok(d) ==> shown_as(d, if index_of_key(old(contacts)@, code.identity_pubkey@) >= 0 {
            final(contacts)@[index_of_key(old(contacts)@, code.identity_pubkey@)]
        } else {
            final(contacts)@.last()
        }),
{
    if code.identity_pubkey.len() != 32 {
        return Err(String::from_str("contact code has an invalid identity key"));
    }
    let name = match code.name {
        Some(n) => n,
        None => String::from_str("Unknown"),
    };
    proof { lemma_index_of_key_range(contacts@, code.identity_pubkey@); }
    match find_by_key(contacts.as_slice(), code.identity_pubkey.as_slice()) {
        Some(k) => {
            let old_c = contacts.remove(k);
            let updated = StoredContact {
                pubkey: old_c.pubkey,
                name,
                addresses: code.addresses,
                cert: code.cert,
                host_user_id: code.host_user_id,
                verified: old_c.verified,
            };
            let dto = ContactDto {
                id: to_hex(updated.pubkey.as_slice()),
                fingerprint: fingerprint(updated.pubkey.as_slice()),
                name: updated.name.clone(),
                addresses: clone_strings(&updated.addresses),
                verified: updated.verified,
            };
            contacts.insert(k, updated);
            Ok(dto)
        },
        None => {
            let contact = StoredContact {
                pubkey: code.identity_pubkey,
                name,
                addresses: code.addresses,
                cert: code.cert,
                host_user_id: code.host_user_id,
                verified: false,
            };
            let dto = ContactDto {
                id: to_hex(contact.pubkey.as_slice()),
                fingerprint: fingerprint(contact.pubkey.as_slice()),
                name: contact.name.clone(),
                addresses: clone_strings(&contact.addresses),
                verified: contact.verified,
            };
            contacts.push(contact);
            Ok(dto)
        },
    }
}


/// The contacts, in order, whose id is not `id`.
pub open spec fn without_id(contacts: Seq<StoredContact>, id: Seq<char>) -> Seq<StoredContact>
    decreases contacts.len(),
{
    if contacts.len() == 0 {
        Seq::empty()
    } else if hex_spec(contacts.last().pubkey@) == id {
        without_id(contacts.drop_last(), id)
    } else {
        without_id(contacts.drop_last(), id).push(contacts.last())
    }
}

/// Remove every contact with id `id`, keeping the others in order.
pub fn remove_contact(contacts: &mut Vec<StoredContact>, id: &str)
    ensures
        final(contacts)@ == without_id(old(contacts)@, id@),
{
    let mut kept: Vec<StoredContact> = Vec::new();
    let mut all: Vec<StoredContact> = Vec::new();
    std::mem::swap(&mut all, contacts);
    let ghost orig = all@;
    let n = all.len();
    let mut k: usize = 0;
    // Take the contacts out front-to-back by reversing once.
    let mut rev: Vec<StoredContact> = Vec::new();
    while all.len() > 0
        invariant
            all@.len() + rev@.len() == n,
            n == orig.len(),
            all@ == orig.take(all@.len() as int),
            forall|m: int| 0 <= m < rev@.len() ==> #[trigger] rev@[m] == orig[n - 1 - m],
        decreases all@.len(),
    {
        let c = all.pop().unwrap();
        rev.push(c);
        assert(all@ =~= orig.take(all@.len() as int));
    }
    assert(orig.take(0) =~= Seq::<StoredContact>::empty());
    while rev.len() > 0
        invariant
            rev@.len() + k == n,
            n == orig.len(),
            forall|m: int| 0 <= m < rev@.len() ==> #[trigger] rev@[m] == orig[n - 1 - m],
            kept@ == without_id(orig.take(k as int), id@),
        decreases rev@.len(),
    {
        let c = rev.pop().unwrap();
        assert(c == orig[k as int]);
        let hex = to_hex(c.pubkey.as_slice());
        let same = str_eq(hex.as_str(), id);
        proof {
            let t = orig.take(k + 1);
            assert(t.drop_last() =~= orig.take(k as int));
            assert(t.last() == c);
        }
        if !same {
            kept.push(c);
        }
        k = k + 1;
    }
    assert(orig.take(n as int) =~= orig);
    *contacts = kept;
}

/// Mark the first contact with id `id` verified (or not); no change when
/// there is none.
pub fn set_contact_verified(contacts: &mut Vec<StoredContact>, id: &str, verified: bool)
    ensures
        index_of_id(old(contacts)@, id@) < 0 ==> final(contacts)@ == old(contacts)@,
        index_of_id(old(contacts)@, id@) >= 0 ==> final(contacts)@ == old(contacts)@.update(
            index_of_id(old(contacts)@, id@),
            StoredContact { verified, ..old(contacts)@[index_of_id(old(contacts)@, id@)] },
        ),
{
    proof { lemma_index_of_id_range(contacts@, id@); }
    match find_by_id(contacts.as_slice(), id) {
        Some(k) => {
            let mut c = contacts.remove(k);
            c.verified = verified;
            contacts.insert(k, c);
            assert(contacts@ =~= old(contacts)@.update(k as int, StoredContact { verified, ..old(contacts)@[k as int] }));
        },
        None => {},
    }
}

/// The saved contacts as shown in the UI, in order.
pub fn list_contacts(contacts: Vec<StoredContact>) -> (out: Vec<ContactDto>)
    ensures
        out@.len() == contacts@.len(),
        forall|k: int| #![trigger out@[k]] 0 <= k < out@.len() ==> {
            &&& out@[k].id@ == hex_spec(contacts@[k].pubkey@)
            &&& out@[k].fingerprint@ == key_fingerprint_spec(contacts@[k].pubkey@)
            &&& out@[k].name == contacts@[k].name
            &&& out@[k].addresses == contacts@[k].addresses
            &&& out@[k].verified == contacts@[k].verified
        },
{
    let ghost orig = contacts@;
    let n = contacts.len();
    let mut all = contacts;
    let mut rev: Vec<ContactDto> = Vec::new();
    while all.len() > 0
        invariant
            all@.len() + rev@.len() == n,
            n == orig.len(),
            all@ == orig.take(all@.len() as int),
            forall|m: int| #![trigger rev@[m]] 0 <= m < rev@.len() ==> {
                let c = orig[n - 1 - m];
                &&& rev@[m].id@ == hex_spec(c.pubkey@)
                &&& rev@[m].fingerprint@ == key_fingerprint_spec(c.pubkey@)
                &&& rev@[m].name == c.name
                &&& rev@[m].addresses == c.addresses
                &&& rev@[m].verified == c.verified
            },
        decreases all@.len(),
    {
        let c = all.pop().unwrap();
        rev.push(to_dto(c));
        assert(all@ =~= orig.take(all@.len() as int));
    }
    let mut out: Vec<ContactDto> = Vec::new();
    while rev.len() > 0
        invariant
            rev@.len() + out@.len() == n,
            n == orig.len(),
            forall|m: int| #![trigger rev@[m]] 0 <= m < rev@.len() ==> {
                let c = orig[n - 1 - m];
                &&& rev@[m].id@ == hex_spec(c.pubkey@)
                &&& rev@[m].fingerprint@ == key_fingerprint_spec(c.pubkey@)
                &&& rev@[m].name == c.name
                &&& rev@[m].addresses == c.addresses
                &&& rev@[m].verified == c.verified
            },
            forall|k: int| #![trigger out@[k]] 0 <= k < out@.len() ==> {
                &&& out@[k].id@ == hex_spec(orig[k].pubkey@)
                &&& out@[k].fingerprint@ == key_fingerprint_spec(orig[k].pubkey@)
                &&& out@[k].name == orig[k].name
                &&& out@[k].addresses == orig[k].addresses
                &&& out@[k].verified == orig[k].verified
            },
        decreases rev@.len(),
    {
        let d = rev.pop().unwrap();
        out.push(d);
    }
    out
}

/// The addresses a contact code carries, LAN first (fast on the same network),
/// then the mesh address (across the internet), as full endpoints.
pub open spec fn contact_addresses_spec(
    tls: bool,
    lan: Option<(Seq<char>, u16)>,
    mesh_address: Option<Seq<char>>,
) -> Seq<Seq<char>> {
    let scheme = if tls { "https"@ } else { "http"@ };
    let port: u16 = match lan {
        Some(l) => l.1,
        None => crate::hosting::DEFAULT_HOST_PORT,
    };
    let first = match lan {
        Some(l) => seq![scheme + "://"@ + l.0 + ":"@ + decimal_spec(l.1 as nat)],
        None => Seq::empty(),
    };
    let second = match mesh_address {
        Some(a) => seq![scheme + "://["@ + a + "]:"@ + decimal_spec(port as nat)],
        None => Seq::empty(),
    };
    first + second
}

/// The addresses this device's contact code carries: its LAN endpoint when it
/// hosts (`lan`: host and port), then its bracketed mesh endpoint when the mesh
/// runs (on the hosting port, else the default one); `https` when serving TLS.
pub fn contact_addresses(tls: bool, lan: Option<(String, u16)>, mesh_address: Option<String>) -> (out: Vec<String>)
    ensures
        views(out@) == contact_addresses_spec(
            tls,
            match lan {
                Some(l) => Some((l.0@, l.1)),
                None => None,
            },
            match mesh_address {
                Some(a) => Some(a@),
                None => None,
            },
        ),
        lan matches Some(l) ==> (mesh_address matches Some(a) ==> out@.len() == 2
            && out@[0]@ == (if tls { "https"@ } else { "http"@ }) + "://"@ + l.0@ + ":"@ + decimal_spec(l.1 as nat)
            && out@[1]@ == (if tls { "https"@ } else { "http"@ }) + "://["@ + a@ + "]:"@ + decimal_spec(l.1 as nat)),
        lan is None ==> (mesh_address matches Some(a) ==> out@.len() == 1
            && out@[0]@ == (if tls { "https"@ } else { "http"@ }) + "://["@ + a@ + "]:"@ + decimal_spec(50051)),
{
    let scheme = if tls {
        "https"
    } else {
        "http"
    };
    let port: u16 = match &lan {
        Some(l) => l.1,
        None => crate::hosting::DEFAULT_HOST_PORT,
    };
    let mut out: Vec<String> = Vec::new();
    if let Some((host, p)) = &lan {
        let a = concat_str(scheme, "://");
        let b = concat_str(a.as_str(), host.as_str());
        let mut c = concat_str(b.as_str(), ":");
        push_decimal(&mut c, *p as usize);
        out.push(c);
    }
    if let Some(addr) = &mesh_address {
        let a = concat_str(scheme, "://[");
        let b = concat_str(a.as_str(), addr.as_str());
        let mut c = concat_str(b.as_str(), "]:");
        push_decimal(&mut c, port as usize);
        out.push(c);
    }
    assert(views(out@) =~= contact_addresses_spec(
        tls,
        match lan {
            Some(l) => Some((l.0@, l.1)),
            None => None,
        },
        match mesh_address {
            Some(a) => Some(a@),
            None => None,
        },
    ));
    proof {
        if out@.len() > 0 {
            assert(views(out@)[0] == out@[0]@);
        }
        if out@.len() > 1 {
            assert(views(out@)[1] == out@[1]@);
        }
    }
    out
}

/// The mesh address of a contact code is on the port the device hosts on:
/// when it hosts on LAN port `p` and the mesh runs, both addresses it carries
/// end with that port, the LAN one as `host:p` and the mesh one as `[a]:p`;
/// only a device that does not host gives its mesh address the default port.
pub proof fn lemma_mesh_address_on_hosting_port(tls: bool, host: Seq<char>, p: u16, a: Seq<char>)
    ensures
        ({
            let v = contact_addresses_spec(tls, Some((host, p)), Some(a));
            let suffix = ":"@ + decimal_spec(p as nat);
            &&& v.len() == 2
            &&& v[0] == (if tls { "https"@ } else { "http"@ }) + "://"@ + host + suffix
            &&& v[1] == (if tls { "https"@ } else { "http"@ }) + "://["@ + a + "]"@ + suffix
        }),
        ({
            let w = contact_addresses_spec(tls, None, Some(a));
            &&& w.len() == 1
            &&& w[0] == (if tls { "https"@ } else { "http"@ }) + "://["@ + a + "]:"@ + decimal_spec(50051)
        }),
{
    let scheme = if tls { "https"@ } else { "http"@ };
    assert(scheme + "://"@ + host + ":"@ + decimal_spec(p as nat) =~= scheme + "://"@ + host + (":"@ + decimal_spec(p as nat)));
    assert(scheme + "://["@ + a + "]:"@ + decimal_spec(p as nat) =~= scheme + "://["@ + a + "]"@ + (":"@ + decimal_spec(p as nat))) by {
        reveal_strlit("]:");
        reveal_strlit("]");
        reveal_strlit(":");
    }
}

/// The parts of this device's own contact code: its contact-identity public
/// key, the name it introduces itself with, where to reach its home server,
/// the server's certificate, and its user id there.
pub fn my_contact_parts(
    master: &crate::identity::IdentityKeyPair,
    name: Option<String>,
    addresses: Vec<String>,
    cert: Option<String>,
    host_user_id: Option<String>,
) -> (c: ContactCodeParts)
    ensures
        c.identity_pubkey@ == crate::identity::ed25519_public_spec(
            crate::hashing::blake3_keyed_hash_spec(master@, crate::device::contact_identity_context()),
        ),
        c.name == name,
        c.addresses == addresses,
        c.cert == cert,
        c.host_user_id == host_user_id,
{
    let pk = crate::device::contact_identity(master).public().to_bytes();
    let mut identity_pubkey: Vec<u8> = Vec::new();
    crate::bytes::append_bytes(&mut identity_pubkey, &pk);
    ContactCodeParts { identity_pubkey, name, addresses, cert, host_user_id }
}

} // verus!

//! Group ids: the server knows a group by the text of a UUID, the MLS layer by
//! its 16 bytes.

use vstd::prelude::*;
use crate::hex::{ascii_codes, hex_digit, hex_pairs_spec, hex_spec, lemma_hex_len, lemma_hex_pairs_of_hex, to_hex};
use crate::bytes::copy_range;
use crate::text::concat_str;

verus! {

/// The hyphenated, lowercase text of a UUID: 8-4-4-4-12 hex digits.
pub open spec fn uuid_text_spec(b: Seq<u8>) -> Seq<char> {
    hex_spec(b.subrange(0, 4)) + "-"@ + hex_spec(b.subrange(4, 6)) + "-"@ + hex_spec(
        b.subrange(6, 8),
    ) + "-"@ + hex_spec(b.subrange(8, 10)) + "-"@ + hex_spec(b.subrange(10, 16))
}

/// Whether a character is a hexadecimal digit (either case).
pub open spec fn is_hex_char(c: char) -> bool {
    ('0' <= c <= '9') || ('a' <= c <= 'f') || ('A' <= c <= 'F')
}

/// The 32 digits of a hyphenated UUID text, without its four hyphens.
pub open spec fn hyphenated_digits(s: Seq<char>) -> Seq<char> {
    s.subrange(0, 8) + s.subrange(9, 13) + s.subrange(14, 18) + s.subrange(19, 23) + s.subrange(
        24,
        36,
    )
}

/// The bytes of a hyphenated UUID text (hex digits of either case at the
/// digit positions, hyphens at offsets 8, 13, 18 and 23); `None` for any
/// other text.
pub open spec fn hyphenated_bytes(s: Seq<char>) -> Option<Seq<u8>> {
    if s.len() == 36 && s[8] == '-' && s[13] == '-' && s[18] == '-' && s[23] == '-' && (forall|
        i: int,
    | 0 <= i < 32 ==> is_hex_char(#[trigger] hyphenated_digits(s)[i])) {
        hex_pairs_spec(ascii_codes(hyphenated_digits(s)))
    } else {
        None
    }
}

/// What `uuid::Uuid::parse_str` gives for a text, as bytes.
pub uninterp spec fn uuid_parse_spec(s: Seq<char>) -> Option<Seq<u8>>;

/// The view of an optional 16-byte array.
pub open spec fn opt_uuid_view(r: Option<[u8; 16]>) -> Option<Seq<u8>> {
    match r {
        Some(b) => Some(b@),
        None => None,
    }
}

/// `uuid::Uuid::parse_str`, as bytes. The result is named; the crate documents
/// that the hyphenated form it prints is accepted, which the second clause
/// states. The other accepted forms (simple, braced, URN) are left to the name.
#[verifier::external_body]
fn parse_uuid(s: &str) -> (r: Option<[u8; 16]>)
    ensures
        opt_uuid_view(r) == uuid_parse_spec(s@),
        hyphenated_bytes(s@) is Some ==> opt_uuid_view(r) == hyphenated_bytes(s@),
{
    match uuid::Uuid::parse_str(s) {
        Ok(u) => Some(*u.as_bytes()),
        Err(_) => None,
    }
}

/// `uuid::Uuid::now_v7`, as bytes: a time-ordered random id. Nothing is
/// claimed of its value.
#[verifier::external_body]
fn uuid_now_v7() -> (b: [u8; 16]) {
    *uuid::Uuid::now_v7().as_bytes()
}

/// The hex digits of `bytes[start..end]`.
fn hex_of_range(bytes: &[u8], start: usize, end: usize) -> (s: String)
    requires
        start <= end <= bytes@.len(),
    ensures
        s@ == hex_spec(bytes@.subrange(start as int, end as int)),
{
    let part = copy_range(bytes, start, end);
    to_hex(part.as_slice())
}

/// The hyphenated, lowercase text of a UUID's bytes (as `uuid::Uuid`'s
/// `Display` prints it).
fn uuid_text(b: &[u8; 16]) -> (s: String)
    ensures
        s@ == uuid_text_spec(b@),
{
    let bytes = b.as_slice();
    let mut s = hex_of_range(bytes, 0, 4);
    s = concat_str(s.as_str(), "-");
    s = concat_str(s.as_str(), hex_of_range(bytes, 4, 6).as_str());
    s = concat_str(s.as_str(), "-");
    s = concat_str(s.as_str(), hex_of_range(bytes, 6, 8).as_str());
    s = concat_str(s.as_str(), "-");
    s = concat_str(s.as_str(), hex_of_range(bytes, 8, 10).as_str());
    s = concat_str(s.as_str(), "-");
    s = concat_str(s.as_str(), hex_of_range(bytes, 10, 16).as_str());
    s
}

/// The MLS group id of a server group id: the UUID's 16 bytes, empty when the
/// text is not a UUID.
pub fn mls_id(group_id: &str) -> (v: Vec<u8>)
    ensures
        v@ == match uuid_parse_spec(group_id@) {
            Some(b) => b,
            None => Seq::empty(),
        },
        hyphenated_bytes(group_id@) is Some ==> v@ == hyphenated_bytes(group_id@)->0,
{
    match parse_uuid(group_id) {
        Some(b) => {
            let mut v: Vec<u8> = Vec::new();
            let mut i: usize = 0;
            while i < 16
                invariant
                    i <= 16,
                    v@ == b@.take(i as int),
                decreases 16 - i,
            {
                v.push(b[i]);
                assert(b@.take(i + 1) =~= b@.take(i as int).push(b@[i as int]));
                i = i + 1;
            }
            assert(b@.take(16) =~= b@);
            v
        },
        None => Vec::new(),
    }
}

/// A fresh group id for a new DM: its bytes (the MLS group id) and its text
/// (the server's group id).
pub fn new_group_id() -> (r: ([u8; 16], String))
    ensures
        r.1@ == uuid_text_spec(r.0@),
{
    let b = uuid_now_v7();
    let s = uuid_text(&b);
    (b, s)
}

proof fn lemma_hex_concat(a: Seq<u8>, b: Seq<u8>)
    ensures
        hex_spec(a + b) == hex_spec(a) + hex_spec(b),
    decreases b.len(),
{
    if b.len() == 0 {
        assert(a + b =~= a);
        assert(hex_spec(b) =~= Seq::<char>::empty());
        assert(hex_spec(a) + hex_spec(b) =~= hex_spec(a));
    } else {
        lemma_hex_concat(a, b.drop_last());
        assert((a + b).drop_last() =~= a + b.drop_last());
        assert((a + b).last() == b.last());
        let tail = seq![hex_digit((b.last() / 16) as int), hex_digit((b.last() % 16) as int)];
        assert(hex_spec(a + b) == hex_spec((a + b).drop_last()) + tail);
        assert(hex_spec(b) == hex_spec(b.drop_last()) + tail);
        assert(hex_spec(a) + hex_spec(b.drop_last()) + tail =~= hex_spec(a) + (hex_spec(
            b.drop_last(),
        ) + tail));
    }
}

proof fn lemma_hex_digits(b: Seq<u8>)
    ensures
        forall|i: int| 0 <= i < hex_spec(b).len() ==> is_hex_char(#[trigger] hex_spec(b)[i]),
    decreases b.len(),
{
    if b.len() > 0 {
        lemma_hex_digits(b.drop_last());
        let p = hex_spec(b.drop_last());
        let h = hex_spec(b);
        assert forall|i: int| 0 <= i < h.len() implies is_hex_char(#[trigger] h[i]) by {
            if i < p.len() {
                assert(h[i] == p[i]);
            }
        }
    }
}

/// The text minted for a group's UUID reads back, as a hyphenated UUID, to
/// the same 16 bytes: a DM created under that text is found again by its MLS
/// group id.
pub proof fn lemma_group_text_roundtrip(b: Seq<u8>)
    requires
        b.len() == 16,
    ensures
        hyphenated_bytes(uuid_text_spec(b)) == Some(b),
{
    let p0 = b.subrange(0, 4);
    let p1 = b.subrange(4, 6);
    let p2 = b.subrange(6, 8);
    let p3 = b.subrange(8, 10);
    let p4 = b.subrange(10, 16);
    lemma_hex_len(p0);
    lemma_hex_len(p1);
    lemma_hex_len(p2);
    lemma_hex_len(p3);
    lemma_hex_len(p4);
    reveal_strlit("-");
    let s = uuid_text_spec(b);
    let h0 = hex_spec(p0);
    let h1 = hex_spec(p1);
    let h2 = hex_spec(p2);
    let h3 = hex_spec(p3);
    let h4 = hex_spec(p4);
    assert(s =~= h0 + seq!['-'] + h1 + seq!['-'] + h2 + seq!['-'] + h3 + seq!['-'] + h4);
    assert(s.subrange(0, 8) =~= h0);
    assert(s.subrange(9, 13) =~= h1);
    assert(s.subrange(14, 18) =~= h2);
    assert(s.subrange(19, 23) =~= h3);
    assert(s.subrange(24, 36) =~= h4);
    lemma_hex_concat(p0, p1);
    lemma_hex_concat(p0 + p1, p2);
    lemma_hex_concat(p0 + p1 + p2, p3);
    lemma_hex_concat(p0 + p1 + p2 + p3, p4);
    assert(p0 + p1 + p2 + p3 + p4 =~= b);
    assert(hyphenated_digits(s) =~= hex_spec(b));
    lemma_hex_digits(b);
    lemma_hex_pairs_of_hex(b);
}

} // verus!

//! Local private (MLS) message-history archive format.
//!
//! On disk each group's archive is an append-only log of records, each
//! `[u8 flag][u32 LE len][payload]`. Flag 1 means the payload is at-rest-sealed
//! JSON; flag 0 means plaintext JSON. Messages received from others are always
//! sealed; the user's own are sealed only when "encrypt at rest" is on. The
//! server vault instead holds the full plaintext JSON Lines (one message per
//! line), sealed under a master-derived key.

use vstd::prelude::*;
use crate::at_rest::{open_bytes, seal_bytes};
use crate::backup::{opened_blob_spec, sealable, sealed_blob_spec, NONCE_LEN, TAG_LEN};
use crate::bytes::{append_bytes, copy_range, le32_bytes, le32_value, lemma_le32_roundtrip, u32_from_le, u32_le_bytes};
use crate::text::{decimal_spec, push_char, push_decimal, str_eq};

verus! {

/// One archived private message.
#[derive(Debug, Clone)]
pub struct ArchivedMessage {
    pub group_id: String,
    pub sender_id: String,
    pub content: String,
    pub timestamp_ms: i64,
}

/// An undecoded record from the tail of a group's archive, with a stable id.
pub struct RawEntry {
    /// Stable id (`<group_id>#<record-index>`) for matching decrypt events.
    pub id: String,
    /// 1 = sealed payload, 0 = plaintext payload.
    pub flag: u8,
    pub payload: Vec<u8>,
}

/// One framed record: flag byte, little-endian 32-bit length, payload.
pub open spec fn frame_spec(flag: u8, payload: Seq<u8>) -> Seq<u8> {
    seq![flag] + le32_bytes(payload.len() as u32) + payload
}

/// The fields of a framed record: the flag first, then a length field that
/// reads back as the payload's length (when it fits in 32 bits), then the
/// payload itself.
pub proof fn lemma_frame_fields(flag: u8, payload: Seq<u8>)
    ensures
        frame_spec(flag, payload).len() == payload.len() + 5,
        frame_spec(flag, payload)[0] == flag,
        frame_spec(flag, payload).skip(5) == payload,
        payload.len() < 0x1_0000_0000 ==> le32_value(
            frame_spec(flag, payload)[1],
            frame_spec(flag, payload)[2],
            frame_spec(flag, payload)[3],
            frame_spec(flag, payload)[4],
        ) == payload.len(),
{
    let f = frame_spec(flag, payload);
    assert(f.skip(5) =~= payload);
    if payload.len() < 0x1_0000_0000 {
        let x = payload.len() as u32;
        lemma_le32_roundtrip(x);
        assert(f[1] == le32_bytes(x)[0]);
        assert(f[2] == le32_bytes(x)[1]);
        assert(f[3] == le32_bytes(x)[2]);
        assert(f[4] == le32_bytes(x)[3]);
    }
}

/// The records of an archive, read front to back; reading stops at a truncated
/// header or a payload that runs past the end.
pub open spec fn parse_spec(data: Seq<u8>) -> Seq<(u8, Seq<u8>)>
    decreases data.len(),
{
    if data.len() < 5 {
        Seq::empty()
    } else {
        let len = le32_value(data[1], data[2], data[3], data[4]) as int;
        if 5 + len > data.len() {
            Seq::empty()
        } else {
            seq![(data[0], data.subrange(5, 5 + len))] + parse_spec(
                data.subrange(5 + len, data.len() as int),
            )
        }
    }
}

/// The archive that holds exactly `records`, in order.
pub open spec fn log_spec(records: Seq<(u8, Seq<u8>)>) -> Seq<u8>
    decreases records.len(),
{
    if records.len() == 0 {
        Seq::empty()
    } else {
        log_spec(records.drop_last()) + frame_spec(records.last().0, records.last().1)
    }
}

/// Every payload fits the 32-bit length field.
pub open spec fn payloads_fit(records: Seq<(u8, Seq<u8>)>) -> bool {
    forall|i: int| 0 <= i < records.len() ==> #[trigger] records[i].1.len() <= u32::MAX
}

/// The plain view of parsed records.
pub open spec fn records_view(v: Seq<(u8, Vec<u8>)>) -> Seq<(u8, Seq<u8>)> {
    Seq::new(v.len(), |i: int| (v[i].0, v[i].1@))
}

/// Encode one record as `[flag][len][payload]`.
pub fn frame(flag: u8, payload: &[u8]) -> (buf: Vec<u8>)
    ensures
        buf@ == frame_spec(flag, payload@),
{
    let mut buf: Vec<u8> = Vec::new();
    buf.push(flag);
    let len = u32_le_bytes(payload.len() as u32);
    append_bytes(&mut buf, &len);
    append_bytes(&mut buf, payload);
    assert(buf@ =~= frame_spec(flag, payload@));
    buf
}

/// Split an archive into its `(flag, payload)` records.
pub fn parse_records(data: &[u8]) -> (records: Vec<(u8, Vec<u8>)>)
    ensures
        records_view(records@) == parse_spec(data@),
{
    let n = data.len();
    let mut records: Vec<(u8, Vec<u8>)> = Vec::new();
    let mut i: usize = 0;
    assert(data@.subrange(0, n as int) =~= data@);
    loop
        invariant
            n == data@.len(),
            i <= n,
            records_view(records@) + parse_spec(data@.subrange(i as int, n as int)) == parse_spec(data@),
        ensures
            records_view(records@) == parse_spec(data@),
        decreases n - i,
    {
        let ghost rest = data@.subrange(i as int, n as int);
        if n - i < 5 {
            assert(parse_spec(rest) == Seq::<(u8, Seq<u8>)>::empty());
            assert(records_view(records@) + Seq::<(u8, Seq<u8>)>::empty() =~= records_view(records@));
            break;
        }
        let flag = data[i];
        let len = u32_from_le(data[i + 1], data[i + 2], data[i + 3], data[i + 4]) as usize;
        assert(rest[1] == data@[i + 1] && rest[2] == data@[i + 2] && rest[3] == data@[i + 3] && rest[4] == data@[i + 4]);
        if len > n - i - 5 {
            assert(parse_spec(rest) == Seq::<(u8, Seq<u8>)>::empty());
            assert(records_view(records@) + Seq::<(u8, Seq<u8>)>::empty() =~= records_view(records@));
            break;
        }
        let payload = copy_range(data, i + 5, i + 5 + len);
        let ghost old_records = records@;
        records.push((flag, payload));
        proof {
            assert(rest.subrange(5, 5 + len as int) =~= data@.subrange(i + 5, i + 5 + len));
            assert(rest.subrange(5 + len as int, rest.len() as int) =~= data@.subrange(i + 5 + len, n as int));
            assert(records_view(records@) =~= records_view(old_records).push((flag, payload@)));
            assert(parse_spec(rest) == seq![(flag, payload@)] + parse_spec(data@.subrange(i + 5 + len, n as int)));
            assert(records_view(records@) + parse_spec(data@.subrange(i + 5 + len, n as int))
                =~= records_view(old_records) + parse_spec(rest));
        }
        i = i + 5 + len;
    }
    records
}

/// Reading a framed record back: the record comes first, then whatever
/// followed it.
pub proof fn lemma_parse_frame(flag: u8, payload: Seq<u8>, rest: Seq<u8>)
    requires
        payload.len() <= u32::MAX,
    ensures
        parse_spec(frame_spec(flag, payload) + rest) == seq![(flag, payload)] + parse_spec(rest),
{
    let d = frame_spec(flag, payload) + rest;
    let len = payload.len() as u32;
    crate::bytes::lemma_le32_roundtrip(len);
    assert(d[0] == flag);
    assert(d[1] == le32_bytes(len)[0] && d[2] == le32_bytes(len)[1] && d[3] == le32_bytes(len)[2] && d[4] == le32_bytes(len)[3]);
    assert(d.subrange(5, 5 + payload.len() as int) =~= payload);
    assert(d.subrange(5 + payload.len() as int, d.len() as int) =~= rest);
}

/// Reading an archive written as a sequence of records gives back exactly those
/// records: the round trip of the history log format.
#[verifier::spinoff_prover]
#[verifier::rlimit(40)]
pub proof fn lemma_parse_log(records: Seq<(u8, Seq<u8>)>, rest: Seq<u8>)
    requires
        payloads_fit(records),
    ensures
        parse_spec(log_spec(records) + rest) == records + parse_spec(rest),
    decreases records.len(),
{
    if records.len() == 0 {
        assert(log_spec(records) + rest =~= rest);
        assert(records + parse_spec(rest) =~= parse_spec(rest));
    } else {
        let last = records.last();
        let init = records.drop_last();
        assert(payloads_fit(init)) by {
            assert forall|i: int| 0 <= i < init.len() implies #[trigger] init[i].1.len() <= u32::MAX by {
                assert(init[i] == records[i]);
            }
        }
        assert(records[records.len() - 1].1.len() <= u32::MAX);
        lemma_parse_frame(last.0, last.1, rest);
        lemma_parse_log(init, frame_spec(last.0, last.1) + rest);
        assert(log_spec(records) + rest =~= log_spec(init) + (frame_spec(last.0, last.1) + rest));
        assert(init + (seq![(last.0, last.1)] + parse_spec(rest)) =~= records + parse_spec(rest));
    }
}

/// Appending one framed record to an archive adds exactly that record at the
/// end of what is read back, and leaves the earlier records unchanged.
pub proof fn lemma_append_record(records: Seq<(u8, Seq<u8>)>, flag: u8, payload: Seq<u8>)
    requires
        payloads_fit(records),
        payload.len() <= u32::MAX,
    ensures
        parse_spec(log_spec(records) + frame_spec(flag, payload)) == records.push((flag, payload)),
{
    let grown = records.push((flag, payload));
    assert(grown.drop_last() =~= records);
    assert(payloads_fit(grown)) by {
        assert forall|i: int| 0 <= i < grown.len() implies #[trigger] grown[i].1.len() <= u32::MAX by {
            if i < records.len() {
                assert(grown[i] == records[i]);
            }
        }
    }
    lemma_parse_log(grown, Seq::empty());
    assert(log_spec(grown) + Seq::<u8>::empty() =~= log_spec(records) + frame_spec(flag, payload));
    assert(parse_spec(Seq::<u8>::empty()) == Seq::<(u8, Seq<u8>)>::empty());
    assert(grown + Seq::<(u8, Seq<u8>)>::empty() =~= grown);
}


/// Whether a message is sealed at rest: always when someone else sent it, and
/// the user's own messages only when "encrypt at rest" is on.
pub open spec fn should_encrypt_spec(sender_id: Seq<char>, user_id: Seq<char>, encrypt_at_rest: bool) -> bool {
    sender_id != user_id || encrypt_at_rest
}

/// A message someone else sent is always sealed at rest, whatever the
/// setting; the user's own messages are sealed exactly when "encrypt at rest"
/// is on.
pub proof fn lemma_received_messages_are_sealed(sender_id: Seq<char>, user_id: Seq<char>, encrypt_at_rest: bool)
    ensures
        sender_id != user_id ==> should_encrypt_spec(sender_id, user_id, true)
            && should_encrypt_spec(sender_id, user_id, false),
        sender_id == user_id ==> should_encrypt_spec(sender_id, user_id, encrypt_at_rest) == encrypt_at_rest,
{
}

/// Whether a message is sealed at rest (see [`should_encrypt_spec`]).
pub fn should_encrypt(sender_id: &str, user_id: &str, encrypt_at_rest: bool) -> (b: bool)
    ensures
        b == should_encrypt_spec(sender_id@, user_id@, encrypt_at_rest),
        sender_id@ != user_id@ ==> b,
        sender_id@ == user_id@ ==> b == encrypt_at_rest,
{
    let mine = str_eq(sender_id, user_id);
    !mine || encrypt_at_rest
}

/// Build the record for a message whose JSON encoding is `json`: sealed under
/// the data key (flag 1) when [`should_encrypt`] says so, else plaintext (flag 0).
pub fn encode_record(key: &[u8; 32], user_id: &str, sender_id: &str, json: &[u8], encrypt_at_rest: bool) -> (r: Result<Vec<u8>, String>)
    ensures
        sender_id@ != user_id@ ==> (r matches Ok(buf) ==> buf@[0] == 1),
        sender_id@ != user_id@ && sealable(json@) ==> r is Ok,
        sender_id@ == user_id@ && !encrypt_at_rest ==> (r matches Ok(buf) && buf@ == frame_spec(0, json@)),
        !should_encrypt_spec(sender_id@, user_id@, encrypt_at_rest) ==> (r matches Ok(buf) && buf@ == frame_spec(0, json@)),
        should_encrypt_spec(sender_id@, user_id@, encrypt_at_rest) && sealable(json@) ==> r is Ok,
        should_encrypt_spec(sender_id@, user_id@, encrypt_at_rest) ==> (r matches Ok(buf) ==> exists|blob: Seq<u8>| buf@ == frame_spec(1, blob)
            && blob.len() == NONCE_LEN + json@.len() + TAG_LEN
            && blob == sealed_blob_spec(key@, blob.take(NONCE_LEN as int), json@)),
        r matches Ok(buf) ==> {
            &&& buf@.len() >= 5
            &&& buf@[0] == (if should_encrypt_spec(sender_id@, user_id@, encrypt_at_rest) { 1u8 } else { 0u8 })
            &&& buf@.len() - 5 < 0x1_0000_0000 ==> le32_value(buf@[1], buf@[2], buf@[3], buf@[4]) == buf@.len() - 5
            &&& buf@[0] == 0 ==> buf@.skip(5) == json@
            &&& buf@[0] == 1 ==> buf@.skip(5) == sealed_blob_spec(key@, buf@.skip(5).take(NONCE_LEN as int), json@)
                && buf@.skip(5).len() == NONCE_LEN + json@.len() + TAG_LEN
        },
{
    if should_encrypt(sender_id, user_id, encrypt_at_rest) {
        let blob = seal_bytes(key, json)?;
        proof {
            lemma_frame_fields(1, blob@);
        }
        Ok(frame(1, blob.as_slice()))
    } else {
        proof {
            lemma_frame_fields(0, json@);
        }
        Ok(frame(0, json))
    }
}

/// Decode one record's payload to the message JSON, opening it when sealed
/// (flag 1). `None` when a sealed payload cannot be opened.
pub fn decode_entry(key: &[u8; 32], flag: u8, payload: &[u8]) -> (r: Option<Vec<u8>>)
    ensures
        flag != 1 ==> (r matches Some(json) && json@ == payload@),
        flag == 1 ==> (r is Some <==> opened_blob_spec(key@, payload@) is Some),
        flag == 1 ==> (r matches Some(json) ==> Some(json@) == opened_blob_spec(key@, payload@)),
        forall|nonce: Seq<u8>, pt: Seq<u8>| flag == 1 && nonce.len() == NONCE_LEN && #[trigger] sealed_blob_spec(key@, nonce, pt) == payload@ ==> (r matches Some(p) && p@ == pt),
{
    if flag == 1 {
        open_bytes(key, payload)
    } else {
        Some(copy_range(payload, 0, payload.len()))
    }
}

/// The id of the record at `index` of a group's archive: `<group_id>#<index>`.
pub open spec fn entry_id_spec(group_id: Seq<char>, index: nat) -> Seq<char> {
    group_id.push('#') + decimal_spec(index)
}

/// How one record of a group's history tail is shown right away.
pub enum HistorySlot {
    /// A plaintext record, shown as soon as its payload decodes.
    Ready { id: String, payload: Vec<u8> },
    /// A sealed record: a placeholder with this id until it is opened.
    Sealed(String),
}

/// The sealed records among `raws` (any flag but 0), in order, as id and payload.
pub open spec fn sealed_views(raws: Seq<RawEntry>) -> Seq<(Seq<char>, Seq<u8>)>
    decreases raws.len(),
{
    if raws.len() == 0 {
        Seq::empty()
    } else if raws.last().flag != 0 {
        sealed_views(raws.drop_last()).push((raws.last().id@, raws.last().payload@))
    } else {
        sealed_views(raws.drop_last())
    }
}

/// The tail's records in order, plaintext ones ready to show and sealed ones
/// as placeholders, with the sealed ones set aside to be opened afterwards.
pub fn history_slots(raws: &[RawEntry]) -> (r: (Vec<HistorySlot>, Vec<(String, Vec<u8>)>))
    ensures
        r.0@.len() == raws@.len(),
        forall|i: int| #![trigger r.0@[i]] 0 <= i < raws@.len() ==> if raws@[i].flag == 0 {
            r.0@[i] matches HistorySlot::Ready { id, payload } && id@ == raws@[i].id@ && payload@ == raws@[i].payload@
        } else {
            r.0@[i] matches HistorySlot::Sealed(id) && id@ == raws@[i].id@
        },
        r.1@.map_values(|p: (String, Vec<u8>)| (p.0@, p.1@)) == sealed_views(raws@),
{
    let mut slots: Vec<HistorySlot> = Vec::new();
    let mut pending: Vec<(String, Vec<u8>)> = Vec::new();
    let mut i: usize = 0;
    while i < raws.len()
        invariant
            i <= raws@.len(),
            slots@.len() == i,
            forall|k: int| #![trigger slots@[k]] 0 <= k < i ==> if raws@[k].flag == 0 {
                slots@[k] matches HistorySlot::Ready { id, payload } && id@ == raws@[k].id@ && payload@ == raws@[k].payload@
            } else {
                slots@[k] matches HistorySlot::Sealed(id) && id@ == raws@[k].id@
            },
            pending@.map_values(|p: (String, Vec<u8>)| (p.0@, p.1@)) == sealed_views(raws@.take(i as int)),
        decreases raws@.len() - i,
    {
        let e = &raws[i];
        let ghost before = pending@;
        proof {
            assert(raws@.take(i + 1).drop_last() =~= raws@.take(i as int));
            assert(raws@.take(i + 1).last() == raws@[i as int]);
            assert(e.payload@.subrange(0, e.payload@.len() as int) =~= e.payload@);
        }
        if e.flag == 0 {
            slots.push(HistorySlot::Ready {
                id: e.id.clone(),
                payload: copy_range(e.payload.as_slice(), 0, e.payload.len()),
            });
        } else {
            slots.push(HistorySlot::Sealed(e.id.clone()));
            let id = e.id.clone();
            let payload = copy_range(e.payload.as_slice(), 0, e.payload.len());
            pending.push((id, payload));
            proof {
                let f = |p: (String, Vec<u8>)| (p.0@, p.1@);
                assert(pending@.map_values(f) =~= before.map_values(f).push((e.id@, e.payload@))) by {
                    assert(pending@ == before.push((id, payload)));
                    assert(pending@.map_values(f).len() == before.map_values(f).len() + 1);
                    assert forall|k: int| 0 <= k < before.len() implies pending@.map_values(f)[k] == before.map_values(f)[k] by {
                        assert(pending@[k] == before[k]);
                    }
                    assert(pending@.map_values(f)[before.len() as int] == (id@, payload@));
                }
            }
        }
        i = i + 1;
    }
    proof {
        assert(raws@.take(raws@.len() as int) =~= raws@);
    }
    (slots, pending)
}

/// The most recent `limit` records, undecoded, each tagged with its stable id,
/// so sealed ones can be shown as placeholders while they decrypt.
pub fn tail_raw(records: &[(u8, Vec<u8>)], group_id: &str, limit: usize) -> (out: Vec<RawEntry>)
    ensures
        out@.len() == (if records@.len() > limit { limit as int } else { records@.len() as int }),
        forall|j: int| #![trigger out@[j]] 0 <= j < out@.len() ==> {
            let index = records@.len() - out@.len() + j;
            &&& out@[j].id@ == entry_id_spec(group_id@, index as nat)
            &&& out@[j].flag == records@[index].0
            &&& out@[j].payload@ == records@[index].1@
        },
{
    let n = records.len();
    let start = n.saturating_sub(limit);
    let mut out: Vec<RawEntry> = Vec::new();
    let mut index = start;
    while index < n
        invariant
            n == records@.len(),
            start == (if n > limit { n - limit } else { 0 }),
            start <= index <= n,
            out@.len() == index - start,
            forall|j: int| #![trigger out@[j]] 0 <= j < out@.len() ==> {
                let k = start + j;
                &&& out@[j].id@ == entry_id_spec(group_id@, k as nat)
                &&& out@[j].flag == records@[k].0
                &&& out@[j].payload@ == records@[k].1@
            },
        decreases n - index,
    {
        let mut id = String::from_str(group_id);
        push_char(&mut id, '#');
        push_decimal(&mut id, index);
        let (flag, payload) = &records[index];
        let copy = copy_range(payload.as_slice(), 0, payload.len());
        assert(payload@.subrange(0, payload@.len() as int) =~= payload@);
        out.push(RawEntry { id, flag: *flag, payload: copy });
        index = index + 1;
    }
    out
}

// ----- the vault form: JSON Lines -----

/// The JSON Lines document holding `lines`, each terminated by `\n`.
pub open spec fn jsonl_spec(lines: Seq<Seq<u8>>) -> Seq<u8>
    decreases lines.len(),
{
    if lines.len() == 0 {
        Seq::empty()
    } else {
        jsonl_spec(lines.drop_last()) + lines.last().push(10u8)
    }
}

/// The plain view of a list of byte buffers.
pub open spec fn lines_view(v: Seq<Vec<u8>>) -> Seq<Seq<u8>> {
    Seq::new(v.len(), |i: int| v[i]@)
}

/// The full plaintext JSON Lines for a group from the JSON encodings of its
/// messages, for sealing to the vault. `None` if the archive is empty.
pub fn plaintext_jsonl(lines: &[Vec<u8>]) -> (r: Option<Vec<u8>>)
    ensures
        lines@.len() == 0 <==> r is None,
        r matches Some(doc) ==> doc@ == jsonl_spec(lines_view(lines@)),
{
    if lines.len() == 0 {
        return None;
    }
    let mut out: Vec<u8> = Vec::new();
    let mut i: usize = 0;
    while i < lines.len()
        invariant
            i <= lines@.len(),
            out@ == jsonl_spec(lines_view(lines@).take(i as int)),
        decreases lines@.len() - i,
    {
        append_bytes(&mut out, lines[i].as_slice());
        out.push(10u8);
        assert(lines_view(lines@).take(i + 1).drop_last() =~= lines_view(lines@).take(i as int));
        i = i + 1;
    }
    assert(lines_view(lines@).take(i as int) =~= lines_view(lines@));
    Some(out)
}

/// Splitting state after reading `data`: the non-empty lines completed so far
/// and the line still being read.
pub open spec fn split_state(data: Seq<u8>) -> (Seq<Seq<u8>>, Seq<u8>)
    decreases data.len(),
{
    if data.len() == 0 {
        (Seq::empty(), Seq::empty())
    } else {
        let (done, cur) = split_state(data.drop_last());
        if data.last() == 10u8 {
            (if cur.len() > 0 { done.push(cur) } else { done }, Seq::empty())
        } else {
            (done, cur.push(data.last()))
        }
    }
}

/// The non-empty lines of `data`, split on `\n`.
pub open spec fn split_lines_spec(data: Seq<u8>) -> Seq<Seq<u8>> {
    let (done, cur) = split_state(data);
    if cur.len() > 0 { done.push(cur) } else { done }
}

/// Split a JSON Lines document into its non-empty lines.
pub fn split_jsonl(data: &[u8]) -> (lines: Vec<Vec<u8>>)
    ensures
        lines_view(lines@) == split_lines_spec(data@),
{
    let mut done: Vec<Vec<u8>> = Vec::new();
    let mut cur: Vec<u8> = Vec::new();
    let mut i: usize = 0;
    while i < data.len()
        invariant
            i <= data@.len(),
            split_state(data@.take(i as int)) == (lines_view(done@), cur@),
        decreases data@.len() - i,
    {
        let b = data[i];
        assert(data@.take(i + 1).drop_last() =~= data@.take(i as int));
        assert(data@.take(i + 1).last() == b);
        if b == 10u8 {
            if cur.len() > 0 {
                let ghost before = done@;
                let mut line: Vec<u8> = Vec::new();
                std::mem::swap(&mut line, &mut cur);
                done.push(line);
                assert(lines_view(done@) =~= lines_view(before).push(line@));
            }
        } else {
            cur.push(b);
        }
        i = i + 1;
    }
    assert(data@.take(i as int) =~= data@);
    if cur.len() > 0 {
        let ghost before = done@;
        let c = cur;
        done.push(c);
        assert(lines_view(done@) =~= lines_view(before).push(c@));
    }
    done
}

/// Every line is non-empty and holds no `\n`.
pub open spec fn clean_lines(lines: Seq<Seq<u8>>) -> bool {
    forall|i: int| 0 <= i < lines.len() ==> {
        &&& #[trigger] lines[i].len() > 0
        &&& !lines[i].contains(10u8)
    }
}

proof fn lemma_split_append_word(prefix: Seq<u8>, word: Seq<u8>)
    requires
        split_state(prefix).1.len() == 0,
        !word.contains(10u8),
    ensures
        split_state(prefix + word) == (split_state(prefix).0, word),
    decreases word.len(),
{
    if word.len() == 0 {
        assert(prefix + word =~= prefix);
    } else {
        let init = word.drop_last();
        assert(!init.contains(10u8)) by {
            if init.contains(10u8) {
                let k = choose|k: int| 0 <= k < init.len() && init[k] == 10u8;
                assert(word[k] == 10u8);
            }
        }
        lemma_split_append_word(prefix, init);
        assert((prefix + word).drop_last() =~= prefix + init);
        assert((prefix + word).last() == word.last());
        assert(word.last() != 10u8) by {
            assert(word[word.len() - 1] == word.last());
        }
        assert(init.push(word.last()) =~= word);
    }
}

proof fn lemma_split_jsonl_state(lines: Seq<Seq<u8>>)
    requires
        clean_lines(lines),
    ensures
        split_state(jsonl_spec(lines)) == (lines, Seq::<u8>::empty()),
    decreases lines.len(),
{
    if lines.len() > 0 {
        let init = lines.drop_last();
        let last = lines.last();
        assert(clean_lines(init)) by {
            assert forall|i: int| 0 <= i < init.len() implies {
                &&& #[trigger] init[i].len() > 0
                &&& !init[i].contains(10u8)
            } by {
                assert(init[i] == lines[i]);
            }
        }
        assert(lines[lines.len() - 1] == last);
        lemma_split_jsonl_state(init);
        lemma_split_append_word(jsonl_spec(init), last);
        let body = jsonl_spec(init) + last;
        assert(jsonl_spec(lines) =~= body.push(10u8));
        assert(body.push(10u8).drop_last() =~= body);
        assert(init.push(last) =~= lines);
    }
}

/// Splitting the JSON Lines written for `lines` gives back `lines`, provided
/// each is non-empty and free of newlines (true of compact JSON): the round
/// trip between what is sealed to the vault and what a restore reads.
pub proof fn lemma_split_jsonl_roundtrip(lines: Seq<Seq<u8>>)
    requires
        clean_lines(lines),
    ensures
        split_lines_spec(jsonl_spec(lines)) == lines,
{
    lemma_split_jsonl_state(lines);
}

/// The archive file of a group: `<group_id>.dmlog`.
pub fn archive_file_name(group_id: &str) -> (name: String)
    ensures
        name@ == group_id@ + ".dmlog"@,
{
    crate::text::concat_str(group_id, ".dmlog")
}

/// The group an archive file belongs to: a name with a non-empty stem and the
/// extension `dmlog` (the text after its last dot).
pub open spec fn archive_group_spec(name: Seq<char>) -> Option<Seq<char>> {
    let stem_len = name.len() - 6;
    if name.len() > 6 && name.skip(stem_len) == ".dmlog"@ {
        Some(name.take(stem_len))
    } else {
        None
    }
}

/// The group an archive file belongs to, if it is an archive file.
pub fn archive_group_of(file_name: &str) -> (g: Option<String>)
    ensures
        g is Some <==> archive_group_spec(file_name@) is Some,
        g matches Some(id) ==> Some(id@) == archive_group_spec(file_name@),
{
    proof {
        reveal_strlit(".dmlog");
    }
    let cs = crate::text::chars_of(file_name);
    let n = cs.len();
    if n <= 6 {
        return None;
    }
    let suffix = crate::bytes_chars::copy_chars(cs.as_slice(), n - 6, n);
    let ext: [char; 6] = ['.', 'd', 'm', 'l', 'o', 'g'];
    assert(ext@ =~= ".dmlog"@);
    let mut same = true;
    let mut i: usize = 0;
    while i < 6
        invariant
            i <= 6,
            suffix@.len() == 6,
            same == forall|j: int| 0 <= j < i ==> suffix@[j] == ext@[j],
        decreases 6 - i,
    {
        if suffix[i] != ext[i] {
            same = false;
        }
        i = i + 1;
    }
    assert(cs@.skip(n - 6) =~= suffix@);
    if !same {
        assert(suffix@ != ".dmlog"@) by {
            let j = choose|j: int| 0 <= j < 6 && suffix@[j] != ext@[j];
        }
        return None;
    }
    assert(suffix@ =~= ".dmlog"@);
    let stem = crate::bytes_chars::copy_chars(cs.as_slice(), 0, n - 6);
    assert(stem@ =~= cs@.take(n - 6));
    Some(crate::text::string_from_chars(stem.as_slice()))
}

/// The archive file of a group with a non-empty id reads back to that group.
pub proof fn lemma_archive_name_roundtrip(group_id: Seq<char>)
    requires
        group_id.len() > 0,
    ensures
        archive_group_spec(group_id + ".dmlog"@) == Some(group_id),
{
    reveal_strlit(".dmlog");
    let name = group_id + ".dmlog"@;
    assert(name.skip(name.len() - 6) =~= ".dmlog"@);
    assert(name.take(name.len() - 6) =~= group_id);
}

} // verus!

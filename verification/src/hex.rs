//! Lowercase hexadecimal encoding and decoding of byte strings.

use vstd::prelude::*;
use crate::text::push_char;

verus! {

/// The lowercase hex digit for a nibble `n < 16`.
pub open spec fn hex_digit(n: int) -> char {
    if n < 10 {
        (48 + n) as char
    } else {
        (87 + n) as char
    }
}

/// Lowercase hex of `bytes`: two digits per byte, high nibble first.
pub open spec fn hex_spec(bytes: Seq<u8>) -> Seq<char>
    decreases bytes.len(),
{
    if bytes.len() == 0 {
        Seq::empty()
    } else {
        hex_spec(bytes.drop_last()) + seq![
            hex_digit((bytes.last() / 16) as int),
            hex_digit((bytes.last() % 16) as int),
        ]
    }
}

/// Hex text has two digits per byte.
pub proof fn lemma_hex_len(bytes: Seq<u8>)
    ensures
        hex_spec(bytes).len() == 2 * bytes.len(),
    decreases bytes.len(),
{
    if bytes.len() > 0 {
        lemma_hex_len(bytes.drop_last());
    }
}

fn nibble_char(n: u8) -> (c: char)
    requires
        n < 16,
    ensures
        c == hex_digit(n as int),
{
    if n < 10 {
        (48 + n) as char
    } else {
        (87 + n) as char
    }
}

/// Lowercase hex of `bytes`.
pub fn to_hex(bytes: &[u8]) -> (s: String)
    ensures
        s@ == hex_spec(bytes@),
{
    let mut s = String::new();
    let mut i: usize = 0;
    while i < bytes.len()
        invariant
            i <= bytes@.len(),
            s@ == hex_spec(bytes@.take(i as int)),
        decreases bytes@.len() - i,
    {
        let b = bytes[i];
        push_char(&mut s, nibble_char(b / 16));
        push_char(&mut s, nibble_char(b % 16));
        assert(bytes@.take(i + 1).drop_last() =~= bytes@.take(i as int));
        i = i + 1;
    }
    assert(bytes@.take(i as int) =~= bytes@);
    s
}

} // verus!

verus! {

/// The value of one hexadecimal digit byte (either case).
pub open spec fn hex_val(b: u8) -> Option<u8> {
    if 48 <= b && b <= 57 {
        Some((b - 48) as u8)
    } else if 97 <= b && b <= 102 {
        Some((b - 87) as u8)
    } else if 65 <= b && b <= 70 {
        Some((b - 55) as u8)
    } else {
        None
    }
}

/// What `u8::from_str_radix(chunk, 16)` gives for a two-byte chunk: two hex
/// digits, or a `+` sign followed by one.
pub open spec fn pair_val(b0: u8, b1: u8) -> Option<u8> {
    if b0 == 43 {
        hex_val(b1)
    } else {
        match (hex_val(b0), hex_val(b1)) {
            (Some(h), Some(l)) => Some((16 * h + l) as u8),
            _ => None,
        }
    }
}

/// Decoding a string two bytes at a time; `None` if any chunk is not a number
/// or a byte is left over.
pub open spec fn hex_pairs_spec(s: Seq<u8>) -> Option<Seq<u8>>
    decreases s.len(),
{
    if s.len() == 0 {
        Some(Seq::empty())
    } else if s.len() == 1 {
        None
    } else {
        match (pair_val(s[0], s[1]), hex_pairs_spec(s.skip(2))) {
            (Some(v), Some(rest)) => Some(seq![v] + rest),
            _ => None,
        }
    }
}

fn hex_val_exec(b: u8) -> (r: Option<u8>)
    ensures
        r == hex_val(b),
{
    if 48 <= b && b <= 57 {
        Some(b - 48)
    } else if 97 <= b && b <= 102 {
        Some(b - 87)
    } else if 65 <= b && b <= 70 {
        Some(b - 55)
    } else {
        None
    }
}

fn pair_val_exec(b0: u8, b1: u8) -> (r: Option<u8>)
    ensures
        r == pair_val(b0, b1),
{
    if b0 == 43 {
        hex_val_exec(b1)
    } else {
        match (hex_val_exec(b0), hex_val_exec(b1)) {
            (Some(h), Some(l)) => Some(16 * h + l),
            _ => None,
        }
    }
}

/// Decode `bytes` two at a time (see [`hex_pairs_spec`]).
pub fn hex_pairs(bytes: &[u8]) -> (r: Option<Vec<u8>>)
    ensures
        match r {
            Some(v) => hex_pairs_spec(bytes@) == Some(v@),
            None => hex_pairs_spec(bytes@) is None,
        },
{
    let n = bytes.len();
    let mut out: Vec<u8> = Vec::new();
    let mut i: usize = 0;
    assert(bytes@.skip(0) =~= bytes@);
    assert(out@ + Seq::<u8>::empty() =~= out@);
    while i < n
        invariant
            n == bytes@.len(),
            i <= n,
            hex_pairs_spec(bytes@) == match hex_pairs_spec(bytes@.skip(i as int)) {
                Some(rest) => Some(out@ + rest),
                None => None::<Seq<u8>>,
            },
        decreases n - i,
    {
        let ghost rest = bytes@.skip(i as int);
        if n - i == 1 {
            assert(hex_pairs_spec(rest) is None);
            return None;
        }
        assert(rest[0] == bytes@[i as int] && rest[1] == bytes@[i + 1]);
        assert(rest.skip(2) =~= bytes@.skip(i + 2));
        match pair_val_exec(bytes[i], bytes[i + 1]) {
            Some(v) => {
                let ghost before = out@;
                out.push(v);
                proof {
                    match hex_pairs_spec(bytes@.skip(i + 2)) {
                        Some(r2) => {
                            assert(before + (seq![v] + r2) =~= out@ + r2);
                        },
                        None => {},
                    }
                }
            },
            None => {
                return None;
            },
        }
        i = i + 2;
    }
    assert(bytes@.skip(i as int) =~= Seq::<u8>::empty());
    assert(out@ + Seq::<u8>::empty() =~= out@);
    Some(out)
}

} // verus!

verus! {

/// The ASCII codes of a character sequence.
pub open spec fn ascii_codes(cs: Seq<char>) -> Seq<u8> {
    Seq::new(cs.len(), |i: int| cs[i] as u8)
}

proof fn lemma_hex_front(x: u8, rest: Seq<u8>)
    ensures
        hex_spec(seq![x] + rest) == seq![hex_digit((x / 16) as int), hex_digit((x % 16) as int)]
            + hex_spec(rest),
    decreases rest.len(),
{
    let pair = seq![hex_digit((x / 16) as int), hex_digit((x % 16) as int)];
    if rest.len() == 0 {
        assert(seq![x] + rest =~= seq![x]);
        assert(seq![x].drop_last() =~= Seq::<u8>::empty());
        assert(hex_spec(rest) =~= Seq::<char>::empty());
        assert(hex_spec(seq![x]) == hex_spec(seq![x].drop_last()) + pair);
        assert(pair + hex_spec(rest) =~= pair);
        assert(Seq::<char>::empty() + pair =~= pair);
    } else {
        let s = seq![x] + rest;
        assert(s.drop_last() =~= seq![x] + rest.drop_last());
        assert(s.last() == rest.last());
        lemma_hex_front(x, rest.drop_last());
        let tail = seq![
            hex_digit((rest.last() / 16) as int),
            hex_digit((rest.last() % 16) as int),
        ];
        assert(hex_spec(s) == hex_spec(s.drop_last()) + tail);
        assert(hex_spec(rest) == hex_spec(rest.drop_last()) + tail);
        assert((pair + hex_spec(rest.drop_last())) + tail =~= pair + (hex_spec(rest.drop_last())
            + tail));
    }
}

proof fn lemma_digit_decodes(n: int)
    requires
        0 <= n < 16,
    ensures
        (hex_digit(n) as u8) != 43,
        hex_val(hex_digit(n) as u8) == Some(n as u8),
{
}

/// Decoding the ASCII form of `hex_spec(bytes)` two digits at a time gives
/// back `bytes`.
pub proof fn lemma_hex_pairs_of_hex(bytes: Seq<u8>)
    ensures
        hex_pairs_spec(ascii_codes(hex_spec(bytes))) == Some(bytes),
    decreases bytes.len(),
{
    if bytes.len() == 0 {
        assert(ascii_codes(hex_spec(bytes)) =~= Seq::<u8>::empty());
    } else {
        let x = bytes[0];
        let rest = bytes.skip(1);
        assert(bytes =~= seq![x] + rest);
        lemma_hex_front(x, rest);
        let hi = (x / 16) as int;
        let lo = (x % 16) as int;
        lemma_digit_decodes(hi);
        lemma_digit_decodes(lo);
        let a = ascii_codes(hex_spec(bytes));
        assert(a[0] == hex_digit(hi) as u8);
        assert(a[1] == hex_digit(lo) as u8);
        assert(pair_val(a[0], a[1]) == Some(x));
        lemma_hex_pairs_of_hex(rest);
        assert(a.skip(2) =~= ascii_codes(hex_spec(rest)));
        assert(seq![x] + rest =~= bytes);
    }
}

proof fn lemma_hex_is_ascii(bytes: Seq<u8>)
    ensures
        vstd::utf8::is_ascii_chars(hex_spec(bytes)),
    decreases bytes.len(),
{
    if bytes.len() > 0 {
        lemma_hex_is_ascii(bytes.drop_last());
        let h = hex_spec(bytes);
        let p = hex_spec(bytes.drop_last());
        assert forall|i| 0 <= i < h.len() implies '\0' <= #[trigger] h[i] <= '\u{7f}' by {
            if i < p.len() {
                assert(h[i] == p[i]);
            }
        }
    }
}

/// The UTF-8 bytes of a hex string decode back to the bytes it was made from.
pub proof fn lemma_hex_roundtrip(bytes: Seq<u8>)
    ensures
        hex_pairs_spec(vstd::utf8::encode_utf8(hex_spec(bytes))) == Some(bytes),
{
    lemma_hex_is_ascii(bytes);
    vstd::utf8::is_ascii_chars_encode_utf8(hex_spec(bytes));
    assert(vstd::utf8::encode_utf8(hex_spec(bytes)) =~= ascii_codes(hex_spec(bytes)));
    lemma_hex_pairs_of_hex(bytes);
}

} // verus!

//! String plumbing: moving between `&str`/`String` and their character
//! sequences, and decimal rendering of counters.

use vstd::prelude::*;
use vstd::std_specs::iter::IteratorSpec;

verus! {

/// The characters of `s`, in order.
pub fn chars_of(s: &str) -> (out: Vec<char>)
    ensures
        out@ == s@,
{
    let mut it = s.chars();
    let mut out: Vec<char> = Vec::new();
    loop
        invariant
            it.obeys_prophetic_iter_laws(),
            it.decrease() is Some,
            out@ + it.remaining() == s@,
        ensures
            out@ == s@,
        decreases it.decrease()->0,
    {
        match it.next() {
            Some(c) => {
                out.push(c);
            },
            None => {
                break;
            },
        }
    }
    out
}

/// A `String` holding exactly `chars`.
pub fn string_from_chars(chars: &[char]) -> (out: String)
    ensures
        out@ == chars@,
{
    let mut out = String::new();
    let mut i: usize = 0;
    while i < chars.len()
        invariant
            i <= chars@.len(),
            out@ == chars@.take(i as int),
        decreases chars@.len() - i,
    {
        push_char(&mut out, chars[i]);
        assert(chars@.take(i + 1) =~= chars@.take(i as int).push(chars@[i as int]));
        i = i + 1;
    }
    assert(chars@.take(chars@.len() as int) =~= chars@);
    out
}

/// Append one character to `s`.
#[verifier::external_body]
pub(crate) fn push_char(s: &mut String, c: char)
    ensures
        final(s)@ == old(s)@.push(c),
{
    s.push(c)
}

} // verus!

verus! {

/// Whether two string slices hold the same characters.
#[verifier::external_body]
pub(crate) fn str_eq(a: &str, b: &str) -> (same: bool)
    ensures
        same == (a@ == b@),
{
    a == b
}

/// The decimal digit character for `d < 10`.
pub open spec fn digit_char(d: int) -> char {
    (48 + d) as char
}

/// Decimal rendering of `n`, without leading zeros (`"0"` for zero).
pub open spec fn decimal_spec(n: nat) -> Seq<char>
    decreases n,
{
    if n < 10 {
        seq![digit_char(n as int)]
    } else {
        decimal_spec(n / 10).push(digit_char((n % 10) as int))
    }
}

/// Append the decimal rendering of `n` to `s`.
pub fn push_decimal(s: &mut String, n: usize)
    ensures
        final(s)@ == old(s)@ + decimal_spec(n as nat),
    decreases n,
{
    if n >= 10 {
        push_decimal(s, n / 10);
    }
    let d = (n % 10) as u8;
    push_char(s, (48 + d) as char);
    assert(final(s)@ =~= old(s)@ + decimal_spec(n as nat)) by {
        if n >= 10 {
            assert(decimal_spec(n as nat) == decimal_spec((n / 10) as nat).push(digit_char((n % 10) as int)));
        }
    }
}

} // verus!

verus! {

/// Unicode `White_Space` (what `char::is_whitespace` tests).
pub open spec fn is_whitespace_spec(c: char) -> bool {
    let u = c as u32;
    (0x9 <= u && u <= 0xD) || u == 0x20 || u == 0x85 || u == 0xA0 || u == 0x1680 || (0x2000 <= u
        && u <= 0x200A) || u == 0x2028 || u == 0x2029 || u == 0x202F || u == 0x205F || u == 0x3000
}

/// Whether `c` has the Unicode `White_Space` property.
pub fn is_whitespace(c: char) -> (b: bool)
    ensures
        b == is_whitespace_spec(c),
{
    let u = c as u32;
    (0x9 <= u && u <= 0xD) || u == 0x20 || u == 0x85 || u == 0xA0 || u == 0x1680 || (0x2000 <= u
        && u <= 0x200A) || u == 0x2028 || u == 0x2029 || u == 0x202F || u == 0x205F || u == 0x3000
}

/// `pat` occurs in `t` starting at index `i`.
pub open spec fn occurs_at(t: Seq<char>, i: int, pat: Seq<char>) -> bool {
    0 <= i && i + pat.len() <= t.len() && t.subrange(i, i + pat.len()) == pat
}

/// Whether `pat` occurs in `t` at `i`.
pub fn matches_at(t: &[char], i: usize, pat: &[char]) -> (b: bool)
    ensures
        b == occurs_at(t@, i as int, pat@),
{
    if i > t.len() || pat.len() > t.len() - i {
        return false;
    }
    let tl = t.len();
    let mut k: usize = 0;
    while k < pat.len()
        invariant
            tl == t@.len(),
            i <= t@.len(),
            i + pat@.len() <= t@.len(),
            k <= pat@.len(),
            forall|m: int| 0 <= m < k ==> t@[i + m] == pat@[m],
        decreases pat@.len() - k,
    {
        if t[i + k] != pat[k] {
            assert(t@.subrange(i as int, i + pat@.len())[k as int] != pat@[k as int]);
            return false;
        }
        k = k + 1;
    }
    assert(t@.subrange(i as int, i + pat@.len()) =~= pat@);
    true
}

/// The index of the first occurrence of `pat` in `t` at or after `i`, or -1.
pub open spec fn find_from(t: Seq<char>, pat: Seq<char>, i: int) -> int
    decreases t.len() + 1 - i,
{
    if i < 0 || i + pat.len() > t.len() {
        -1
    } else if occurs_at(t, i, pat) {
        i
    } else {
        find_from(t, pat, i + 1)
    }
}

/// The first occurrence of `pat` in `t` at or after `i`.
pub fn find_exec(t: &[char], pat: &[char], i: usize) -> (r: Option<usize>)
    ensures
        match r {
            Some(k) => find_from(t@, pat@, i as int) == k as int,
            None => find_from(t@, pat@, i as int) == -1,
        },
{
    let mut k = i;
    while k <= t.len() && pat.len() <= t.len() - k
        invariant
            i <= k,
            find_from(t@, pat@, i as int) == find_from(t@, pat@, k as int),
        decreases t@.len() + 1 - k,
    {
        if matches_at(t, k, pat) {
            return Some(k);
        }
        if k == t.len() {
            assert(t@.subrange(k as int, k as int) =~= pat@);
            return None;
        }
        k = k + 1;
    }
    None
}

/// The part of `u` after the last `c` (all of `u` when there is none): what
/// `rsplit(c).next()` yields.
pub open spec fn after_last_spec(u: Seq<char>, c: char) -> Seq<char>
    decreases u.len(),
{
    if u.len() == 0 {
        u
    } else if u.last() == c {
        Seq::empty()
    } else {
        after_last_spec(u.drop_last(), c).push(u.last())
    }
}

/// The part of `u` before the first `c` (all of `u` when there is none): what
/// `split(c).next()` yields.
pub open spec fn before_first_spec(u: Seq<char>, c: char) -> Seq<char>
    decreases u.len(),
{
    if u.len() == 0 {
        u
    } else if u[0] == c {
        Seq::empty()
    } else {
        seq![u[0]] + before_first_spec(u.drop_first(), c)
    }
}

/// The part of `u` after the last `c`.
pub fn after_last(u: &[char], c: char) -> (out: Vec<char>)
    ensures
        out@ == after_last_spec(u@, c),
{
    let n = u.len();
    let mut j = n;
    assert(u@.take(n as int) =~= u@);
    while j > 0 && u[j - 1] != c
        invariant
            j <= n,
            n == u@.len(),
            after_last_spec(u@, c) == after_last_spec(u@.take(j as int), c) + u@.subrange(j as int, n as int),
        decreases j,
    {
        let ghost pre = u@.take(j as int);
        assert(pre.drop_last() =~= u@.take(j - 1));
        assert(pre.last() == u@[j - 1]);
        assert(after_last_spec(pre, c) == after_last_spec(u@.take(j - 1), c).push(u@[j - 1]));
        assert(after_last_spec(u@.take(j - 1), c).push(u@[j - 1]) + u@.subrange(j as int, n as int)
            =~= after_last_spec(u@.take(j - 1), c) + u@.subrange(j - 1, n as int));
        j = j - 1;
    }
    if j > 0 {
        assert(u@.take(j as int).last() == c);
    }
    assert(after_last_spec(u@.take(j as int), c) =~= Seq::<char>::empty());
    let out = crate::bytes_chars::copy_chars(u, j, n);
    assert(after_last_spec(u@, c) =~= u@.subrange(j as int, n as int));
    out
}

/// The part of `u` before the first `c`.
pub fn before_first(u: &[char], c: char) -> (out: Vec<char>)
    ensures
        out@ == before_first_spec(u@, c),
{
    let n = u.len();
    let mut k: usize = 0;
    assert(u@.skip(0) =~= u@);
    assert(u@.take(0) =~= Seq::<char>::empty());
    while k < n && u[k] != c
        invariant
            k <= n,
            n == u@.len(),
            before_first_spec(u@, c) == u@.take(k as int) + before_first_spec(u@.skip(k as int), c),
        decreases n - k,
    {
        let ghost rest = u@.skip(k as int);
        assert(rest[0] == u@[k as int]);
        assert(rest.drop_first() =~= u@.skip(k + 1));
        assert(u@.take(k as int) + (seq![u@[k as int]] + before_first_spec(u@.skip(k + 1), c))
            =~= u@.take(k + 1) + before_first_spec(u@.skip(k + 1), c));
        k = k + 1;
    }
    if k < n {
        assert(u@.skip(k as int)[0] == c);
    }
    assert(before_first_spec(u@.skip(k as int), c) =~= Seq::<char>::empty());
    let out = crate::bytes_chars::copy_chars(u, 0, k);
    assert(before_first_spec(u@, c) =~= u@.subrange(0, k as int));
    out
}

} // verus!

verus! {

/// `s` without leading whitespace.
pub open spec fn trim_start_spec(s: Seq<char>) -> Seq<char>
    decreases s.len(),
{
    if s.len() > 0 && is_whitespace_spec(s[0]) {
        trim_start_spec(s.drop_first())
    } else {
        s
    }
}

/// `s` without trailing whitespace.
pub open spec fn trim_end_spec(s: Seq<char>) -> Seq<char>
    decreases s.len(),
{
    if s.len() > 0 && is_whitespace_spec(s.last()) {
        trim_end_spec(s.drop_last())
    } else {
        s
    }
}

/// `s` without leading or trailing whitespace (what `str::trim` yields).
pub open spec fn trim_spec(s: Seq<char>) -> Seq<char> {
    trim_end_spec(trim_start_spec(s))
}

/// `s` without leading or trailing whitespace.
pub fn trim_chars(s: &[char]) -> (out: Vec<char>)
    ensures
        out@ == trim_spec(s@),
{
    let n = s.len();
    let mut a: usize = 0;
    assert(s@.skip(0) =~= s@);
    while a < n && is_whitespace(s[a])
        invariant
            a <= n,
            n == s@.len(),
            trim_start_spec(s@) == trim_start_spec(s@.skip(a as int)),
        decreases n - a,
    {
        assert(s@.skip(a as int).drop_first() =~= s@.skip(a + 1));
        a = a + 1;
    }
    let ghost st = s@.skip(a as int);
    assert(trim_start_spec(s@) == st);
    let mut b: usize = n;
    assert(st.take((b - a) as int) =~= st);
    while b > a && is_whitespace(s[b - 1])
        invariant
            a <= b <= n,
            n == s@.len(),
            st == s@.skip(a as int),
            trim_end_spec(st) == trim_end_spec(st.take((b - a) as int)),
        decreases b,
    {
        let ghost cur = st.take((b - a) as int);
        assert(cur.last() == s@[b - 1]);
        assert(cur.drop_last() =~= st.take((b - 1 - a) as int));
        b = b - 1;
    }
    let ghost cur = st.take((b - a) as int);
    if b > a {
        assert(cur.last() == s@[b - 1]);
    }
    assert(trim_end_spec(cur) == cur);
    let out = crate::bytes_chars::copy_chars(s, a, b);
    assert(out@ =~= cur);
    out
}

/// The pieces of `t` separated by `sep` (one more piece than separators, as
/// `str::split` yields).
pub open spec fn split_pieces(t: Seq<char>, sep: char) -> Seq<Seq<char>>
    decreases t.len(),
{
    if t.len() == 0 {
        seq![Seq::<char>::empty()]
    } else {
        let p = split_pieces(t.drop_last(), sep);
        if t.last() == sep {
            p.push(Seq::<char>::empty())
        } else {
            p.update(p.len() - 1, p.last().push(t.last()))
        }
    }
}

/// The trimmed pieces that are not empty after trimming, in order.
pub open spec fn keep_trimmed(ps: Seq<Seq<char>>) -> Seq<Seq<char>>
    decreases ps.len(),
{
    if ps.len() == 0 {
        Seq::empty()
    } else {
        keep_trimmed(ps.drop_last()) + if trim_spec(ps.last()).len() > 0 {
            seq![trim_spec(ps.last())]
        } else {
            Seq::empty()
        }
    }
}

/// Split `text` on `sep`, trim each piece and keep the non-empty ones, in order.
pub fn split_trimmed(text: &str, sep: char) -> (out: Vec<String>)
    ensures
        crate::strset::views(out@) == keep_trimmed(split_pieces(text@, sep)),
{
    let t = chars_of(text);
    let n = t.len();
    let mut out: Vec<String> = Vec::new();
    let mut cur: Vec<char> = Vec::new();
    let mut i: usize = 0;
    assert(t@.take(0) =~= Seq::<char>::empty());
    while i < n
        invariant
            n == t@.len(),
            t@ == text@,
            i <= n,
            split_pieces(t@.take(i as int), sep).len() > 0,
            split_pieces(t@.take(i as int), sep).last() == cur@,
            crate::strset::views(out@) == keep_trimmed(split_pieces(t@.take(i as int), sep).drop_last()),
        decreases n - i,
    {
        let c = t[i];
        let ghost p = split_pieces(t@.take(i as int), sep);
        assert(t@.take(i + 1).drop_last() =~= t@.take(i as int));
        assert(t@.take(i + 1).last() == c);
        if c == sep {
            let piece = trim_chars(cur.as_slice());
            let ghost before = crate::strset::views(out@);
            if piece.len() > 0 {
                out.push(string_from_chars(piece.as_slice()));
                assert(crate::strset::views(out@) =~= before.push(piece@));
            }
            cur = Vec::new();
            proof {
                let np = p.push(Seq::<char>::empty());
                assert(np.drop_last() =~= p);
                assert(p =~= p.drop_last().push(p.last()));
                assert(keep_trimmed(p) == keep_trimmed(p.drop_last()) + if trim_spec(p.last()).len() > 0 {
                    seq![trim_spec(p.last())]
                } else {
                    Seq::empty()
                });
                assert(crate::strset::views(out@) =~= keep_trimmed(p));
            }
        } else {
            cur.push(c);
            proof {
                let np = p.update(p.len() - 1, p.last().push(c));
                assert(np.drop_last() =~= p.drop_last());
            }
        }
        i = i + 1;
    }
    assert(t@.take(n as int) =~= t@);
    let ghost p = split_pieces(t@, sep);
    let piece = trim_chars(cur.as_slice());
    let ghost before = crate::strset::views(out@);
    if piece.len() > 0 {
        out.push(string_from_chars(piece.as_slice()));
        assert(crate::strset::views(out@) =~= before.push(piece@));
    }
    assert(keep_trimmed(p) == keep_trimmed(p.drop_last()) + if trim_spec(p.last()).len() > 0 {
        seq![trim_spec(p.last())]
    } else {
        Seq::empty()
    });
    assert(crate::strset::views(out@) =~= keep_trimmed(p));
    out
}

} // verus!

verus! {

/// The pieces joined with `sep` between them (what `[String]::join` yields).
pub open spec fn join_spec(ps: Seq<Seq<char>>, sep: char) -> Seq<char>
    decreases ps.len(),
{
    if ps.len() == 0 {
        Seq::empty()
    } else if ps.len() == 1 {
        ps[0]
    } else {
        join_spec(ps.drop_last(), sep).push(sep) + ps.last()
    }
}

/// Join `parts` with `sep` between them.
pub fn join_with(parts: &[String], sep: char) -> (out: String)
    ensures
        out@ == join_spec(crate::strset::views(parts@), sep),
{
    let mut out = String::new();
    let mut i: usize = 0;
    while i < parts.len()
        invariant
            i <= parts@.len(),
            out@ == join_spec(crate::strset::views(parts@).take(i as int), sep),
        decreases parts@.len() - i,
    {
        let ghost pre = crate::strset::views(parts@).take(i as int);
        let ghost post = crate::strset::views(parts@).take(i + 1);
        assert(post.drop_last() =~= pre);
        if i > 0 {
            push_char(&mut out, sep);
        }
        out.append(parts[i].as_str());
        proof {
            if i == 0 {
                assert(out@ =~= post[0]);
            } else {
                assert(out@ =~= join_spec(pre, sep).push(sep) + post.last());
            }
        }
        i = i + 1;
    }
    assert(crate::strset::views(parts@).take(i as int) =~= crate::strset::views(parts@));
    out
}

proof fn lemma_split_append_piece(a: Seq<char>, sep: char, w: Seq<char>)
    requires
        !w.contains(sep),
    ensures
        split_pieces(a.push(sep) + w, sep) == split_pieces(a, sep).push(w),
    decreases w.len(),
{
    if w.len() == 0 {
        assert(a.push(sep) + w =~= a.push(sep));
        assert(a.push(sep).drop_last() =~= a);
        assert(a.push(sep).last() == sep);
        assert(w =~= Seq::<char>::empty());
    } else {
        let init = w.drop_last();
        assert(!init.contains(sep)) by {
            if init.contains(sep) {
                let k = choose|k: int| 0 <= k < init.len() && init[k] == sep;
                assert(w[k] == sep);
            }
        }
        lemma_split_append_piece(a, sep, init);
        let whole = a.push(sep) + w;
        assert(whole.drop_last() =~= a.push(sep) + init);
        assert(whole.last() == w.last());
        assert(w.last() != sep) by {
            assert(w[w.len() - 1] == w.last());
        }
        let p = split_pieces(a, sep).push(init);
        assert(split_pieces(whole, sep) == p.update(p.len() - 1, p.last().push(whole.last())));
        assert(init.push(w.last()) =~= w);
        assert(p.update(p.len() - 1, p.last().push(w.last())) =~= split_pieces(a, sep).push(w));
    }
}

proof fn lemma_split_single(w: Seq<char>, sep: char)
    requires
        !w.contains(sep),
    ensures
        split_pieces(w, sep) == seq![w],
    decreases w.len(),
{
    if w.len() > 0 {
        let init = w.drop_last();
        assert(!init.contains(sep)) by {
            if init.contains(sep) {
                let k = choose|k: int| 0 <= k < init.len() && init[k] == sep;
                assert(w[k] == sep);
            }
        }
        lemma_split_single(init, sep);
        assert(w.last() != sep) by {
            assert(w[w.len() - 1] == w.last());
        }
        assert(init.push(w.last()) =~= w);
        assert(seq![init].update(0, init.push(w.last())) =~= seq![init.push(w.last())]);
    } else {
        assert(w =~= Seq::<char>::empty());
    }
}

/// Pieces free of the separator split back out of their join.
pub proof fn lemma_split_join(ps: Seq<Seq<char>>, sep: char)
    requires
        ps.len() > 0,
        forall|i: int| 0 <= i < ps.len() ==> !(#[trigger] ps[i]).contains(sep),
    ensures
        split_pieces(join_spec(ps, sep), sep) == ps,
    decreases ps.len(),
{
    if ps.len() == 1 {
        lemma_split_single(ps[0], sep);
        assert(seq![ps[0]] =~= ps);
    } else {
        let init = ps.drop_last();
        assert forall|i: int| 0 <= i < init.len() implies !(#[trigger] init[i]).contains(sep) by {
            assert(init[i] == ps[i]);
        }
        lemma_split_join(init, sep);
        assert(!ps[ps.len() - 1].contains(sep));
        lemma_split_append_piece(join_spec(init, sep), sep, ps.last());
        assert(init.push(ps.last()) =~= ps);
    }
}

/// Pieces that are already trimmed and non-empty are all kept, unchanged.
pub proof fn lemma_keep_trimmed_clean(ps: Seq<Seq<char>>)
    requires
        forall|i: int| 0 <= i < ps.len() ==> trim_spec(#[trigger] ps[i]) == ps[i] && ps[i].len() > 0,
    ensures
        keep_trimmed(ps) == ps,
    decreases ps.len(),
{
    if ps.len() > 0 {
        let init = ps.drop_last();
        assert forall|i: int| 0 <= i < init.len() implies trim_spec(#[trigger] init[i]) == init[i] && init[i].len() > 0 by {
            assert(init[i] == ps[i]);
        }
        lemma_keep_trimmed_clean(init);
        assert(trim_spec(ps[ps.len() - 1]) == ps[ps.len() - 1]);
        assert(init + seq![ps.last()] =~= ps);
    }
}

} // verus!

verus! {

/// `a` followed by `b`.
pub fn concat_str(a: &str, b: &str) -> (out: String)
    ensures
        out@ == a@ + b@,
{
    let mut chars = chars_of(a);
    let tail = chars_of(b);
    let ghost start = chars@;
    let mut i: usize = 0;
    while i < tail.len()
        invariant
            i <= tail@.len(),
            chars@ == start + tail@.take(i as int),
        decreases tail@.len() - i,
    {
        chars.push(tail[i]);
        assert(tail@.take(i + 1) =~= tail@.take(i as int).push(tail@[i as int]));
        i = i + 1;
    }
    assert(tail@.take(i as int) =~= tail@);
    string_from_chars(chars.as_slice())
}

/// Whether `s` starts with `prefix`.
pub fn starts_with_str(s: &str, prefix: &str) -> (b: bool)
    ensures
        b == (prefix@.len() <= s@.len() && s@.take(prefix@.len() as int) == prefix@),
{
    let sc = chars_of(s);
    let pc = chars_of(prefix);
    if pc.len() > sc.len() {
        return false;
    }
    let mut i: usize = 0;
    while i < pc.len()
        invariant
            pc@ == prefix@,
            sc@ == s@,
            pc@.len() <= sc@.len(),
            i <= pc@.len(),
            forall|m: int| 0 <= m < i ==> sc@[m] == pc@[m],
        decreases pc@.len() - i,
    {
        if sc[i] != pc[i] {
            assert(s@.take(prefix@.len() as int)[i as int] != prefix@[i as int]);
            return false;
        }
        i = i + 1;
    }
    assert(s@.take(prefix@.len() as int) =~= prefix@);
    true
}

} // verus!

verus! {

/// Whether `text` is what a byte string decodes to: when the bytes are the
/// UTF-8 encoding of some text, that text; `None` when they encode none.
pub open spec fn utf8_decoding(bytes: Seq<u8>, text: Option<Seq<char>>) -> bool {
    match text {
        Some(t) => vstd::utf8::encode_utf8(t) == bytes,
        None => forall|cs: Seq<char>| vstd::utf8::encode_utf8(cs) != bytes,
    }
}

/// The view of an optional string.
pub open spec fn opt_string_view(o: Option<String>) -> Option<Seq<char>> {
    match o {
        Some(s) => Some(s@),
        None => None,
    }
}

/// `std::str::from_utf8(b)`, owned: the text whose UTF-8 encoding is `b`, or
/// `None` when `b` is not UTF-8 (as documented).
#[verifier::external_body]
pub(crate) fn utf8_text(b: &[u8]) -> (r: Option<String>)
    ensures
        utf8_decoding(b@, opt_string_view(r)),
{
    match std::str::from_utf8(b) {
        Ok(s) => Some(s.to_owned()),
        Err(_) => None,
    }
}

} // verus!

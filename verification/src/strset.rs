//! Sorted, duplicate-free lists of strings (the shape peer lists are kept in),
//! ordered lexicographically by character code point - the order of `str`'s
//! `Ord`, which compares UTF-8 bytes.

use vstd::prelude::*;
use crate::text::chars_of;

verus! {

/// Lexicographic "less than" on character sequences.
pub open spec fn lex_lt(a: Seq<char>, b: Seq<char>) -> bool
    decreases a.len(),
{
    if a.len() == 0 {
        b.len() > 0
    } else if b.len() == 0 {
        false
    } else if a[0] != b[0] {
        a[0] < b[0]
    } else {
        lex_lt(a.drop_first(), b.drop_first())
    }
}

/// No string sorts before itself.
pub proof fn lemma_lex_irreflexive(a: Seq<char>)
    ensures
        !lex_lt(a, a),
    decreases a.len(),
{
    if a.len() > 0 {
        lemma_lex_irreflexive(a.drop_first());
    }
}

/// Sorting before is transitive.
pub proof fn lemma_lex_transitive(a: Seq<char>, b: Seq<char>, c: Seq<char>)
    requires
        lex_lt(a, b),
        lex_lt(b, c),
    ensures
        lex_lt(a, c),
    decreases a.len(),
{
    if a.len() > 0 && b.len() > 0 && c.len() > 0 {
        if a[0] == b[0] && b[0] == c[0] {
            lemma_lex_transitive(a.drop_first(), b.drop_first(), c.drop_first());
        }
    }
}

/// Of two different strings, one sorts before the other.
pub proof fn lemma_lex_total(a: Seq<char>, b: Seq<char>)
    requires
        a != b,
    ensures
        lex_lt(a, b) || lex_lt(b, a),
    decreases a.len(),
{
    if a.len() > 0 && b.len() > 0 {
        if a[0] == b[0] {
            if a.drop_first() == b.drop_first() {
                assert(a =~= seq![a[0]] + a.drop_first());
                assert(b =~= seq![b[0]] + b.drop_first());
            }
            lemma_lex_total(a.drop_first(), b.drop_first());
        }
    } else if a.len() == 0 && b.len() == 0 {
        assert(a =~= b);
    }
}

/// Two strings never each sort before the other.
pub proof fn lemma_lex_asymmetric(a: Seq<char>, b: Seq<char>)
    requires
        lex_lt(a, b),
    ensures
        !lex_lt(b, a),
{
    if lex_lt(b, a) {
        lemma_lex_transitive(a, b, a);
        lemma_lex_irreflexive(a);
    }
}

/// `a < b` in the lexicographic order.
pub fn lex_less(a: &[char], b: &[char]) -> (r: bool)
    ensures
        r == lex_lt(a@, b@),
{
    let mut i: usize = 0;
    assert(a@.skip(0) =~= a@);
    assert(b@.skip(0) =~= b@);
    while i < a.len() && i < b.len() && a[i] == b[i]
        invariant
            i <= a@.len(),
            i <= b@.len(),
            lex_lt(a@, b@) == lex_lt(a@.skip(i as int), b@.skip(i as int)),
        decreases a@.len() - i,
    {
        let ghost sa = a@.skip(i as int);
        let ghost sb = b@.skip(i as int);
        assert(sa.drop_first() =~= a@.skip(i + 1));
        assert(sb.drop_first() =~= b@.skip(i + 1));
        i = i + 1;
    }
    let ghost sa = a@.skip(i as int);
    let ghost sb = b@.skip(i as int);
    if i == a.len() {
        i < b.len()
    } else if i == b.len() {
        false
    } else {
        assert(sa[0] == a@[i as int] && sb[0] == b@[i as int]);
        a[i] < b[i]
    }
}

/// The character sequences of a list of strings.
pub open spec fn views(v: Seq<String>) -> Seq<Seq<char>> {
    Seq::new(v.len(), |i: int| v[i]@)
}

/// Strictly increasing: sorted with no duplicates.
pub open spec fn strictly_sorted(s: Seq<Seq<char>>) -> bool {
    forall|i: int, j: int| 0 <= i < j < s.len() ==> lex_lt(#[trigger] s[i], #[trigger] s[j])
}

/// Insert `x` into a strictly sorted list unless it is already there.
pub fn insert_sorted(v: &mut Vec<String>, x: String)
    requires
        strictly_sorted(views(old(v)@)),
    ensures
        strictly_sorted(views(final(v)@)),
        forall|s: Seq<char>| views(final(v)@).contains(s) <==> (views(old(v)@).contains(s) || s == x@),
{
    let xc = chars_of(x.as_str());
    let mut pos: usize = 0;
    while pos < v.len() && lex_less(chars_of(v[pos].as_str()).as_slice(), xc.as_slice())
        invariant
            pos <= v@.len(),
            xc@ == x@,
            strictly_sorted(views(v@)),
            forall|k: int| 0 <= k < pos ==> lex_lt(#[trigger] views(v@)[k], x@),
        decreases v@.len() - pos,
    {
        pos = pos + 1;
    }
    let ghost old_v = views(v@);
    if pos < v.len() {
        let here = chars_of(v[pos].as_str());
        if here.len() == xc.len() && !lex_less(here.as_slice(), xc.as_slice()) && !lex_less(xc.as_slice(), here.as_slice()) {
            proof {
                if here@ != xc@ {
                    lemma_lex_total(here@, xc@);
                }
                assert(old_v[pos as int] == x@);
            }
            return;
        }
        proof {
            if here@ == xc@ {
                lemma_lex_irreflexive(here@);
            }
            lemma_lex_total(here@, xc@);
        }
    }
    v.insert(pos, x);
    proof {
        let nv = views(v@);
        assert(nv =~= old_v.insert(pos as int, x@));
        assert forall|i: int, j: int| 0 <= i < j < nv.len() implies lex_lt(#[trigger] nv[i], #[trigger] nv[j]) by {
            if j < pos {
                assert(nv[i] == old_v[i] && nv[j] == old_v[j]);
            } else if j == pos {
                assert(nv[i] == old_v[i]);
            } else if i == pos {
                assert(nv[j] == old_v[j - 1]);
                if j - 1 > pos {
                    assert(lex_lt(old_v[pos as int], old_v[j - 1]));
                    lemma_lex_transitive(x@, old_v[pos as int], old_v[j - 1]);
                }
            } else if i < pos {
                assert(nv[i] == old_v[i] && nv[j] == old_v[j - 1]);
            } else {
                assert(nv[i] == old_v[i - 1] && nv[j] == old_v[j - 1]);
            }
        }
        assert forall|s: Seq<char>| nv.contains(s) <==> (old_v.contains(s) || s == x@) by {
            if nv.contains(s) {
                let k = choose|k: int| 0 <= k < nv.len() && nv[k] == s;
                if k < pos {
                    assert(old_v[k] == s);
                } else if k > pos {
                    assert(old_v[k - 1] == s);
                }
            }
            if old_v.contains(s) {
                let k = choose|k: int| 0 <= k < old_v.len() && old_v[k] == s;
                if k < pos {
                    assert(nv[k] == s);
                } else {
                    assert(nv[k + 1] == s);
                }
            }
            if s == x@ {
                assert(nv[pos as int] == s);
            }
        }
    }
}

/// Sort and deduplicate: the result is strictly sorted and holds exactly the
/// distinct strings of `list`.
pub fn sort_dedup(list: Vec<String>) -> (out: Vec<String>)
    ensures
        strictly_sorted(views(out@)),
        forall|s: Seq<char>| views(out@).contains(s) <==> views(list@).contains(s),
{
    let mut out: Vec<String> = Vec::new();
    let n = list.len();
    let mut i: usize = 0;
    while i < n
        invariant
            n == list@.len(),
            i <= n,
            strictly_sorted(views(out@)),
            forall|s: Seq<char>| views(out@).contains(s) <==> views(list@).take(i as int).contains(s),
        decreases n - i,
    {
        let item = list[i].clone();
        let ghost before = views(out@);
        insert_sorted(&mut out, item);
        let ghost pre = views(list@).take(i as int);
        let ghost post = views(list@).take(i + 1);
        assert(post =~= pre.push(list@[i as int]@));
        assert forall|s: Seq<char>| post.contains(s) <==> (pre.contains(s) || s == list@[i as int]@) by {
            if post.contains(s) {
                let k = choose|k: int| 0 <= k < post.len() && post[k] == s;
                if k < pre.len() {
                    assert(pre[k] == s);
                }
            }
            if pre.contains(s) {
                let k = choose|k: int| 0 <= k < pre.len() && pre[k] == s;
                assert(post[k] == s);
            }
            if s == list@[i as int]@ {
                assert(post[i as int] == s);
            }
        }
        i = i + 1;
    }
    assert(views(list@).take(n as int) =~= views(list@));
    out
}

} // verus!

verus! {

/// A copy of a list of strings.
pub fn clone_strings(v: &Vec<String>) -> (out: Vec<String>)
    ensures
        out@ == v@,
{
    let mut out: Vec<String> = Vec::new();
    let mut k: usize = 0;
    while k < v.len()
        invariant
            k <= v@.len(),
            out@ == v@.take(k as int),
        decreases v@.len() - k,
    {
        out.push(v[k].clone());
        assert(out@ =~= v@.take(k + 1));
        k = k + 1;
    }
    assert(v@.take(k as int) =~= v@);
    out
}

/// A copy of an optional string.
pub fn clone_opt_string(o: &Option<String>) -> (out: Option<String>)
    ensures
        out == *o,
{
    match o {
        Some(s) => Some(s.clone()),
        None => None,
    }
}

} // verus!

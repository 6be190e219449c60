//! Yggdrasil mesh configuration: the bundled bootstrap peers and parsing of the
//! user's private-peer list.

use vstd::prelude::*;
use crate::strset::{sort_dedup, strictly_sorted, views};
use crate::text::{chars_of, is_whitespace_spec, keep_trimmed, matches_at, occurs_at, split_pieces, split_trimmed, string_from_chars, trim_chars, trim_end_spec, trim_spec, trim_start_spec};
use crate::settings::YggPeerMode;
use crate::peers::{tcp_scheme, tls_scheme};

verus! {

/// Bundled public Yggdrasil bootstrap peers, used when the user has not set any.
pub const DEFAULT_MESH_PEERS: [&'static str; 4] = [
    "tls://ygg.mkg20001.io:443",
    "tls://yggdrasil.su:62586",
    "tls://s2.i2pd.xyz:39575",
    "tls://ygg-nl.incognet.io:8884",
];

/// The bundled default peers, as character sequences.
pub open spec fn default_peers_spec() -> Seq<Seq<char>> {
    Seq::new(4, |i: int| DEFAULT_MESH_PEERS@[i]@)
}

/// The bundled default peers as owned strings.
pub fn default_peers() -> (out: Vec<String>)
    ensures
        views(out@) == default_peers_spec(),
{
    let mut out: Vec<String> = Vec::new();
    let mut k: usize = 0;
    while k < 4
        invariant
            k <= 4,
            views(out@) == default_peers_spec().take(k as int),
        decreases 4 - k,
    {
        let peer: &'static str = DEFAULT_MESH_PEERS[k];
        assert(peer == DEFAULT_MESH_PEERS@[k as int]);
        let ghost before = views(out@);
        out.push(String::from_str(peer));
        assert(views(out@) =~= before.push(peer@));
        assert(default_peers_spec().take(k + 1) =~= default_peers_spec().take(k as int).push(peer@));
        k = k + 1;
    }
    assert(default_peers_spec().take(4) =~= default_peers_spec());
    out
}

/// Whether mesh networking is compiled into this build. This library is built
/// without the embedded Yggdrasil node.
pub fn is_available() -> (b: bool)
    ensures
        !b,
{
    false
}


/// The separators of a private-peers list: space, comma, tab and the brackets
/// of a `Peers: [ ... ]` block.
pub open spec fn is_list_sep(c: char) -> bool {
    c == ' ' || c == ',' || c == '\t' || c == '[' || c == ']'
}

/// The pieces of `t` between list separators (as `str::split` with a set of
/// separator characters yields).
pub open spec fn list_pieces(t: Seq<char>) -> Seq<Seq<char>>
    decreases t.len(),
{
    if t.len() == 0 {
        seq![Seq::<char>::empty()]
    } else {
        let p = list_pieces(t.drop_last());
        if is_list_sep(t.last()) {
            p.push(Seq::<char>::empty())
        } else {
            p.update(p.len() - 1, p.last().push(t.last()))
        }
    }
}

/// A `tcp://` or `tls://` URI token.
pub open spec fn is_peer_token(s: Seq<char>) -> bool {
    occurs_at(s, 0, tcp_scheme()) || occurs_at(s, 0, tls_scheme())
}

/// `s` is one of the peer URIs written in `lines`: a trimmed piece of some line
/// that starts with `tcp://` or `tls://`.
pub open spec fn listed_peer(lines: Seq<Seq<char>>, s: Seq<char>) -> bool {
    exists|li: int, pj: int|
        0 <= li < lines.len() && 0 <= pj < list_pieces(lines[li]).len()
            && s == trim_spec(#[trigger] list_pieces(lines[li])[pj]) && is_peer_token(s)
}

fn list_pieces_exec(line: &str) -> (out: Vec<Vec<char>>)
    ensures
        out@.len() == list_pieces(line@).len(),
        forall|k: int| 0 <= k < out@.len() ==> #[trigger] out@[k]@ == list_pieces(line@)[k],
{
    let t = chars_of(line);
    let n = t.len();
    let mut done: Vec<Vec<char>> = Vec::new();
    let mut cur: Vec<char> = Vec::new();
    let mut i: usize = 0;
    assert(t@.take(0) =~= Seq::<char>::empty());
    while i < n
        invariant
            n == t@.len(),
            t@ == line@,
            i <= n,
            done@.len() + 1 == list_pieces(t@.take(i as int)).len(),
            forall|k: int| 0 <= k < done@.len() ==> #[trigger] done@[k]@ == list_pieces(t@.take(i as int))[k],
            cur@ == list_pieces(t@.take(i as int)).last(),
        decreases n - i,
    {
        let c = t[i];
        let ghost p = list_pieces(t@.take(i as int));
        assert(t@.take(i + 1).drop_last() =~= t@.take(i as int));
        assert(t@.take(i + 1).last() == c);
        if c == ' ' || c == ',' || c == '\t' || c == '[' || c == ']' {
            let mut piece: Vec<char> = Vec::new();
            std::mem::swap(&mut piece, &mut cur);
            done.push(piece);
        } else {
            cur.push(c);
        }
        i = i + 1;
    }
    assert(t@.take(n as int) =~= t@);
    done.push(cur);
    done
}

fn is_peer_token_exec(s: &[char]) -> (b: bool)
    ensures
        b == is_peer_token(s@),
{
    let tcp: [char; 6] = ['t', 'c', 'p', ':', '/', '/'];
    let tls: [char; 6] = ['t', 'l', 's', ':', '/', '/'];
    assert(tcp@ =~= tcp_scheme());
    assert(tls@ =~= tls_scheme());
    matches_at(s, 0, &tcp) || matches_at(s, 0, &tls)
}

/// Pull `tcp://` / `tls://` URIs out of the user's private-peers text. Lenient:
/// accepts the `Peers: [ ... ]` block format, one per line, or comma-separated.
/// The result is sorted and deduplicated.
pub fn parse_private_peers(text_lines: &[String]) -> (out: Vec<String>)
    ensures
        strictly_sorted(views(out@)),
        forall|s: Seq<char>| views(out@).contains(s) <==> listed_peer(views(text_lines@), s),
        forall|s: Seq<char>, k: int| views(out@).contains(s) && 0 <= k < s.len() ==> {
            let c = #[trigger] s[k];
            c != '[' && c != ']' && c != ',' && c != ' ' && c != '\t'
        },
        forall|s: Seq<char>| #[trigger] views(out@).contains(s) ==> s.len() >= 6 && (s.take(6) == seq!['t', 'c', 'p', ':', '/', '/']
            || s.take(6) == seq!['t', 'l', 's', ':', '/', '/']),
{
    let ghost lines = views(text_lines@);
    let mut found: Vec<String> = Vec::new();
    let mut li: usize = 0;
    while li < text_lines.len()
        invariant
            li <= text_lines@.len(),
            lines == views(text_lines@),
            forall|s: Seq<char>| views(found@).contains(s) <==> exists|a: int, b: int|
                0 <= a < li && 0 <= b < list_pieces(lines[a]).len()
                    && s == trim_spec(#[trigger] list_pieces(lines[a])[b]) && is_peer_token(s),
        decreases text_lines@.len() - li,
    {
        let pieces = list_pieces_exec(text_lines[li].as_str());
        assert(text_lines@[li as int]@ == lines[li as int]);
        let mut pj: usize = 0;
        while pj < pieces.len()
            invariant
                li < text_lines@.len(),
                lines == views(text_lines@),
                pieces@.len() == list_pieces(lines[li as int]).len(),
                forall|k: int| 0 <= k < pieces@.len() ==> #[trigger] pieces@[k]@ == list_pieces(lines[li as int])[k],
                pj <= pieces@.len(),
                forall|s: Seq<char>| views(found@).contains(s) <==> (exists|a: int, b: int|
                    0 <= a < li && 0 <= b < list_pieces(lines[a]).len()
                        && s == trim_spec(#[trigger] list_pieces(lines[a])[b]) && is_peer_token(s))
                    || (exists|b: int| 0 <= b < pj && s == trim_spec(#[trigger] list_pieces(lines[li as int])[b]) && is_peer_token(s)),
            decreases pieces@.len() - pj,
        {
            let tok = trim_chars(pieces[pj].as_slice());
            let ghost before = views(found@);
            if is_peer_token_exec(tok.as_slice()) {
                found.push(string_from_chars(tok.as_slice()));
                assert(views(found@) =~= before.push(tok@));
            }
            proof {
                let cur = list_pieces(lines[li as int]);
                assert(tok@ == trim_spec(cur[pj as int]));
                assert forall|s: Seq<char>| views(found@).contains(s) <==> (exists|a: int, b: int|
                    0 <= a < li && 0 <= b < list_pieces(lines[a]).len()
                        && s == trim_spec(#[trigger] list_pieces(lines[a])[b]) && is_peer_token(s))
                    || (exists|b: int| 0 <= b < pj + 1 && s == trim_spec(#[trigger] list_pieces(lines[li as int])[b]) && is_peer_token(s)) by {
                    let old_side = (exists|a: int, b: int|
                        0 <= a < li && 0 <= b < list_pieces(lines[a]).len()
                            && s == trim_spec(#[trigger] list_pieces(lines[a])[b]) && is_peer_token(s))
                        || (exists|b: int| 0 <= b < pj && s == trim_spec(#[trigger] list_pieces(lines[li as int])[b]) && is_peer_token(s));
                    if views(found@).contains(s) {
                        let k = choose|k: int| 0 <= k < views(found@).len() && views(found@)[k] == s;
                        if k < before.len() {
                            assert(before[k] == s);
                            assert(before.contains(s));
                            if exists|b: int| 0 <= b < pj && s == trim_spec(#[trigger] list_pieces(lines[li as int])[b]) && is_peer_token(s) {
                                let b = choose|b: int| 0 <= b < pj && s == trim_spec(#[trigger] list_pieces(lines[li as int])[b]) && is_peer_token(s);
                                assert(s == trim_spec(list_pieces(lines[li as int])[b]));
                            }
                        } else {
                            assert(s == trim_spec(cur[pj as int]));
                        }
                    }
                    if exists|b: int| 0 <= b < pj + 1 && s == trim_spec(#[trigger] list_pieces(lines[li as int])[b]) && is_peer_token(s) {
                        let b = choose|b: int| 0 <= b < pj + 1 && s == trim_spec(#[trigger] list_pieces(lines[li as int])[b]) && is_peer_token(s);
                        if b < pj {
                            assert(old_side);
                            assert(before.contains(s));
                            let k = choose|k: int| 0 <= k < before.len() && before[k] == s;
                            assert(views(found@)[k] == s);
                        } else {
                            assert(views(found@)[before.len() as int] == s);
                        }
                    }
                    if exists|a: int, b: int|
                        0 <= a < li && 0 <= b < list_pieces(lines[a]).len()
                            && s == trim_spec(#[trigger] list_pieces(lines[a])[b]) && is_peer_token(s) {
                        assert(old_side);
                        assert(before.contains(s));
                        let k = choose|k: int| 0 <= k < before.len() && before[k] == s;
                        assert(views(found@)[k] == s);
                    }
                }
            }
            pj = pj + 1;
        }
        proof {
            assert forall|s: Seq<char>| views(found@).contains(s) <==> exists|a: int, b: int|
                0 <= a < li + 1 && 0 <= b < list_pieces(lines[a]).len()
                    && s == trim_spec(#[trigger] list_pieces(lines[a])[b]) && is_peer_token(s) by {
                if views(found@).contains(s) {
                    if exists|b: int| 0 <= b < pj && s == trim_spec(#[trigger] list_pieces(lines[li as int])[b]) && is_peer_token(s) {
                        let b = choose|b: int| 0 <= b < pj && s == trim_spec(#[trigger] list_pieces(lines[li as int])[b]) && is_peer_token(s);
                        assert(s == trim_spec(list_pieces(lines[li as int])[b]));
                    } else {
                        let (a, b) = choose|a: int, b: int|
                            0 <= a < li && 0 <= b < list_pieces(lines[a]).len()
                                && s == trim_spec(#[trigger] list_pieces(lines[a])[b]) && is_peer_token(s);
                        assert(s == trim_spec(list_pieces(lines[a])[b]));
                    }
                }
                if exists|a: int, b: int|
                    0 <= a < li + 1 && 0 <= b < list_pieces(lines[a]).len()
                        && s == trim_spec(#[trigger] list_pieces(lines[a])[b]) && is_peer_token(s) {
                    let (a, b) = choose|a: int, b: int|
                        0 <= a < li + 1 && 0 <= b < list_pieces(lines[a]).len()
                            && s == trim_spec(#[trigger] list_pieces(lines[a])[b]) && is_peer_token(s);
                    if a < li {
                        assert(s == trim_spec(list_pieces(lines[a])[b]));
                    } else {
                        assert(s == trim_spec(list_pieces(lines[li as int])[b]));
                    }
                }
            }
        }
        li = li + 1;
    }
    let out = sort_dedup(found);
    proof {
        assert forall|s: Seq<char>, k: int| views(out@).contains(s) && 0 <= k < s.len() implies {
            let c = #[trigger] s[k];
            c != '[' && c != ']' && c != ',' && c != ' ' && c != '\t'
        } by {
            lemma_private_peer_holds_no_separator(lines, s);
        }
        assert forall|s: Seq<char>| #[trigger] views(out@).contains(s) implies s.len() >= 6 && (s.take(6) == seq!['t', 'c', 'p', ':', '/', '/']
            || s.take(6) == seq!['t', 'l', 's', ':', '/', '/']) by {
            assert(listed_peer(lines, s));
            assert(is_peer_token(s));
            if occurs_at(s, 0, tcp_scheme()) {
                assert(s.take(6) =~= s.subrange(0, 6));
            } else {
                assert(s.take(6) =~= s.subrange(0, 6));
            }
        }
    }
    out
}

/// A piece of a private-peers line holds no list separator.
proof fn lemma_pieces_hold_no_separator(t: Seq<char>)
    ensures
        list_pieces(t).len() >= 1,
        forall|i: int, k: int| 0 <= i < list_pieces(t).len() && 0 <= k < list_pieces(t)[i].len()
            ==> !is_list_sep(#[trigger] list_pieces(t)[i][k]),
    decreases t.len(),
{
    if t.len() > 0 {
        lemma_pieces_hold_no_separator(t.drop_last());
        let p = list_pieces(t.drop_last());
        if !is_list_sep(t.last()) {
            let q = p.update(p.len() - 1, p.last().push(t.last()));
            assert forall|i: int, k: int| 0 <= i < q.len() && 0 <= k < q[i].len() implies !is_list_sep(#[trigger] q[i][k]) by {
                if i == p.len() - 1 && k == p.last().len() {
                    assert(q[i][k] == t.last());
                } else if i == p.len() - 1 {
                    assert(q[i][k] == p[i][k]);
                } else {
                    assert(q[i] == p[i]);
                }
            }
        } else {
            let q = p.push(Seq::<char>::empty());
            assert forall|i: int, k: int| 0 <= i < q.len() && 0 <= k < q[i].len() implies !is_list_sep(#[trigger] q[i][k]) by {
                assert(i < p.len());
                assert(q[i] == p[i]);
            }
        }
    }
}

/// What trimming leaves of a text: its leading whitespace dropped.
proof fn lemma_trim_start_keeps_tail(s: Seq<char>)
    ensures
        trim_start_spec(s).len() <= s.len(),
        forall|k: int| 0 <= k < trim_start_spec(s).len()
            ==> #[trigger] trim_start_spec(s)[k] == s[k + s.len() - trim_start_spec(s).len()],
    decreases s.len(),
{
    if s.len() > 0 && is_whitespace_spec(s[0]) {
        lemma_trim_start_keeps_tail(s.drop_first());
    }
}

/// What trimming leaves of a text: its trailing whitespace dropped.
proof fn lemma_trim_end_keeps_head(s: Seq<char>)
    ensures
        trim_end_spec(s).len() <= s.len(),
        forall|k: int| 0 <= k < trim_end_spec(s).len() ==> #[trigger] trim_end_spec(s)[k] == s[k],
    decreases s.len(),
{
    if s.len() > 0 && is_whitespace_spec(s.last()) {
        lemma_trim_end_keeps_head(s.drop_last());
    }
}

/// Every character of a trimmed text is a character of the text.
proof fn lemma_trim_chars_come_from(s: Seq<char>, k: int)
    requires
        0 <= k < trim_spec(s).len(),
    ensures
        exists|j: int| 0 <= j < s.len() && trim_spec(s)[k] == s[j],
{
    let a = trim_start_spec(s);
    lemma_trim_start_keeps_tail(s);
    lemma_trim_end_keeps_head(a);
    assert(trim_spec(s)[k] == a[k]);
    assert(a[k] == s[k + s.len() - a.len()]);
}

/// Splitting at a separator: the pieces of `x`, the separator, then `y` are
/// the pieces of `x` followed by those of `y`.
proof fn lemma_pieces_split(x: Seq<char>, c: char, y: Seq<char>)
    requires
        is_list_sep(c),
    ensures
        list_pieces(x + seq![c] + y) == list_pieces(x) + list_pieces(y),
    decreases y.len(),
{
    let z = x + seq![c] + y;
    if y.len() == 0 {
        assert(z.drop_last() =~= x);
        assert(list_pieces(x) + list_pieces(y) =~= list_pieces(x).push(Seq::<char>::empty()));
    } else {
        assert(z.drop_last() =~= x + seq![c] + y.drop_last());
        assert(z.last() == y.last());
        lemma_pieces_split(x, c, y.drop_last());
        lemma_pieces_hold_no_separator(y.drop_last());
        let a = list_pieces(x);
        let b = list_pieces(y.drop_last());
        if is_list_sep(y.last()) {
            assert(a + b.push(Seq::<char>::empty()) =~= (a + b).push(Seq::<char>::empty()));
        } else {
            assert((a + b).update((a + b).len() - 1, (a + b).last().push(y.last()))
                =~= a + b.update(b.len() - 1, b.last().push(y.last())));
        }
    }
}

/// A text with no separator is one piece.
proof fn lemma_pieces_whole(u: Seq<char>)
    requires
        forall|k: int| 0 <= k < u.len() ==> !is_list_sep(#[trigger] u[k]),
    ensures
        list_pieces(u) == seq![u],
    decreases u.len(),
{
    if u.len() > 0 {
        lemma_pieces_whole(u.drop_last());
        assert(!is_list_sep(u[u.len() - 1]));
        assert(u.drop_last().push(u.last()) =~= u);
        assert(seq![u.drop_last()].update(0, u.drop_last().push(u.last())) =~= seq![u]);
    } else {
        assert(u =~= Seq::<char>::empty());
    }
}

/// A private peer taken from the list holds no bracket, comma, space or tab:
/// the brackets of a `Peers: [ ... ]` block and the separators between
/// entries never stay on a URI.
pub proof fn lemma_private_peer_holds_no_separator(lines: Seq<Seq<char>>, s: Seq<char>)
    requires
        listed_peer(lines, s),
    ensures
        forall|k: int| 0 <= k < s.len() ==> {
            let c = #[trigger] s[k];
            c != '[' && c != ']' && c != ',' && c != ' ' && c != '\t'
        },
{
    let (li, pj) = choose|li: int, pj: int|
        0 <= li < lines.len() && 0 <= pj < list_pieces(lines[li]).len()
            && s == trim_spec(#[trigger] list_pieces(lines[li])[pj]) && is_peer_token(s);
    let piece = list_pieces(lines[li])[pj];
    lemma_pieces_hold_no_separator(lines[li]);
    assert forall|k: int| 0 <= k < s.len() implies {
        let c = #[trigger] s[k];
        c != '[' && c != ']' && c != ',' && c != ' ' && c != '\t'
    } by {
        lemma_trim_chars_come_from(piece, k);
        let j = choose|j: int| 0 <= j < piece.len() && trim_spec(piece)[k] == piece[j];
        assert(!is_list_sep(list_pieces(lines[li])[pj][j]));
    }
}

/// A peer written inside the brackets of a `Peers: [ ... ]` block, with no
/// space around it, is found exactly: a `tcp://` or `tls://` URI `u` holding no
/// separator or whitespace, in a line `pre` + `[` + `u` + `]` + `post`, is one
/// of the listed peers.
pub proof fn lemma_bracketed_peer_is_listed(lines: Seq<Seq<char>>, li: int, pre: Seq<char>, u: Seq<char>, post: Seq<char>)
    requires
        0 <= li < lines.len(),
        lines[li] == pre + seq!['['] + u + seq![']'] + post,
        occurs_at(u, 0, tcp_scheme()) || occurs_at(u, 0, tls_scheme()),
        forall|k: int| 0 <= k < u.len() ==> {
            let c = #[trigger] u[k];
            c != '[' && c != ']' && c != ',' && !is_whitespace_spec(c)
        },
    ensures
        listed_peer(lines, u),
{
    assert(u.len() >= 6);
    assert forall|k: int| 0 <= k < u.len() implies !is_list_sep(#[trigger] u[k]) by {
        let c = u[k];
        assert(!is_whitespace_spec(c));
        assert(c != ' ' && c != '\t');
    }
    lemma_pieces_whole(u);
    let rest = u + seq![']'] + post;
    lemma_pieces_split(u, ']', post);
    lemma_pieces_split(pre, '[', rest);
    assert(pre + seq!['['] + rest =~= lines[li]);
    let j = list_pieces(pre).len() as int;
    assert(list_pieces(lines[li]) == list_pieces(pre) + (seq![u] + list_pieces(post)));
    assert(list_pieces(lines[li])[j] == u);
    assert(!is_whitespace_spec(u[0]));
    assert(!is_whitespace_spec(u.last()));
    assert(trim_start_spec(u) == u);
    assert(trim_end_spec(u) == u);
    assert(trim_spec(u) == u);
    assert(is_peer_token(u));
    assert(0 <= j < list_pieces(lines[li]).len());
    assert(u == trim_spec(list_pieces(lines[li])[j]) && is_peer_token(u));
}

/// Peers hosted by the project; none are published yet.
pub const AUTHORIZED_PEERS: [&'static str; 0] = [];

/// The peers a connect goes through for a mode, when they are fixed: the
/// authorized set (none published yet, an error), or the user's private peers
/// (an error when none parse). `None` for public mode, whose peers are chosen
/// by probing.
pub fn fixed_peers(mode: YggPeerMode, private_peers: &[String]) -> (r: Result<Option<Vec<String>>, String>)
    ensures
        mode == YggPeerMode::Authorized ==> (r matches Err(e) && e@
            == "no authorized peers are published yet - they arrive with our hosted infrastructure; use Public or Private peers for now"@),
        mode == YggPeerMode::Public ==> r == Ok::<Option<Vec<String>>, String>(None),
        mode == YggPeerMode::Private ==> {
            &&& (r is Err <==> forall|s: Seq<char>| !listed_peer(views(private_peers@), s))
            &&& (r matches Err(e) ==> e@ == "no peer URIs found - enter at least one tcp:// or tls:// peer"@)
            &&& (r matches Ok(Some(v)) ==> strictly_sorted(views(v@)) && forall|s: Seq<char>|
                views(v@).contains(s) <==> listed_peer(views(private_peers@), s))
        },
{
    match mode {
        YggPeerMode::Authorized => {
            let published: &[&'static str] = &AUTHORIZED_PEERS;
            if published.len() == 0 {
                return Err(
                    "no authorized peers are published yet - they arrive with our hosted infrastructure; use Public or Private peers for now".to_owned(),
                );
            }
            let mut out: Vec<String> = Vec::new();
            let mut i: usize = 0;
            while i < published.len()
                invariant
                    i <= published@.len(),
                decreases published@.len() - i,
            {
                out.push(published[i].to_owned());
                i = i + 1;
            }
            Ok(Some(out))
        },
        YggPeerMode::Private => {
            let parsed = parse_private_peers(private_peers);
            if parsed.len() == 0 {
                proof {
                    assert forall|s: Seq<char>| !listed_peer(views(private_peers@), s) by {
                        if listed_peer(views(private_peers@), s) {
                            assert(views(parsed@).contains(s));
                        }
                    }
                }
                return Err("no peer URIs found - enter at least one tcp:// or tls:// peer".to_owned());
            }
            proof {
                let s0 = views(parsed@)[0];
                assert(views(parsed@).contains(s0));
                assert(listed_peer(views(private_peers@), s0));
            }
            Ok(Some(parsed))
        },
        YggPeerMode::Public => Ok(None),
    }
}

/// Whether a line of the peers file counts: not blank and not a `#` comment.
pub open spec fn peer_line(l: Seq<char>) -> bool {
    l.len() > 0 && l[0] != '#'
}

/// The kept lines, in order.
pub open spec fn peer_lines(ls: Seq<Seq<char>>) -> Seq<Seq<char>>
    decreases ls.len(),
{
    if ls.len() == 0 {
        Seq::empty()
    } else if peer_line(ls.last()) {
        peer_lines(ls.drop_last()).push(ls.last())
    } else {
        peer_lines(ls.drop_last())
    }
}

/// Peers from the environment setting: comma-separated, trimmed, blanks dropped.
pub fn peers_from_env(value: &str) -> (peers: Vec<String>)
    ensures
        views(peers@) == keep_trimmed(split_pieces(value@, ',')),
{
    split_trimmed(value, ',')
}

/// Peers from the peers file: one per line, trimmed, blank lines and `#`
/// comments dropped.
pub fn peers_from_file(text: &str) -> (peers: Vec<String>)
    ensures
        views(peers@) == peer_lines(keep_trimmed(split_pieces(text@, '\n'))),
{
    let lines = split_trimmed(text, '\n');
    let ghost ls = views(lines@);
    let mut out: Vec<String> = Vec::new();
    let mut i: usize = 0;
    while i < lines.len()
        invariant
            i <= lines@.len(),
            ls == views(lines@),
            views(out@) == peer_lines(ls.take(i as int)),
        decreases lines@.len() - i,
    {
        let l = &lines[i];
        let cs = chars_of(l.as_str());
        let ghost before = views(out@);
        proof {
            assert(ls.take(i + 1).drop_last() =~= ls.take(i as int));
            assert(ls.take(i + 1).last() == l@);
        }
        if cs.len() > 0 && cs[0] != '#' {
            out.push(l.clone());
            assert(views(out@) =~= before.push(l@));
        }
        i = i + 1;
    }
    assert(ls.take(i as int) =~= ls);
    out
}

/// The peers a node started without explicit peers uses: the environment's,
/// else the peers file's, else the bundled defaults.
pub fn dev_peers(from_env: Vec<String>, from_file: Vec<String>) -> (peers: Vec<String>)
    ensures
        from_env@.len() > 0 ==> peers@ == from_env@,
        from_env@.len() == 0 && from_file@.len() > 0 ==> peers@ == from_file@,
        from_env@.len() == 0 && from_file@.len() == 0 ==> views(peers@) == default_peers_spec(),
{
    if from_env.len() > 0 {
        from_env
    } else if from_file.len() > 0 {
        from_file
    } else {
        default_peers()
    }
}

/// Whether a starting mesh node should start: `Ok(Some(address))` when it is
/// already running, an error while another start is under way, `Ok(None)` to
/// go ahead.
pub fn start_gate(address: Option<String>, starting: bool) -> (r: Result<Option<String>, String>)
    ensures
        address is Some ==> r == Ok::<Option<String>, String>(address),
        address is None && starting ==> (r matches Err(e) && e@ == "the mesh is already starting"@),
        address is None && !starting ==> r == Ok::<Option<String>, String>(None),
{
    match address {
        Some(a) => Ok(Some(a)),
        None => {
            if starting {
                Err("the mesh is already starting".to_owned())
            } else {
                Ok(None)
            }
        },
    }
}

/// What the mesh watchdog does on a tick.
pub enum WatchdogCheck {
    /// It was replaced, the node stopped, or there are no peers to watch.
    Stop,
    /// Probe the peers; when none answers, migrate to new ones.
    Probe,
}

/// The watchdog's decision before probing.
pub fn watchdog_check(still_current: bool, running: bool, peer_count: usize) -> (c: WatchdogCheck)
    ensures
        c is Probe <==> still_current && running && peer_count > 0,
{
    if !still_current || !running {
        return WatchdogCheck::Stop;
    }
    if peer_count == 0 {
        return WatchdogCheck::Stop;
    }
    WatchdogCheck::Probe
}

} // verus!

//! Yggdrasil peer selection: picking peer URIs out of the public-peers lists,
//! turning them into socket addresses, choosing a region from the UTC offset,
//! and deciding which probed peers to configure.

use vstd::prelude::*;
use crate::bytes_chars::copy_chars;
use crate::strset::{sort_dedup, strictly_sorted, views};
use crate::text::{
    join_spec, join_with, keep_trimmed, split_pieces, split_trimmed, trim_spec,
    after_last, after_last_spec, before_first, before_first_spec, chars_of, find_exec, find_from,
    is_whitespace, is_whitespace_spec, matches_at, occurs_at, string_from_chars,
};

verus! {

/// `"tls://"`.
pub open spec fn tls_scheme() -> Seq<char> {
    seq!['t', 'l', 's', ':', '/', '/']
}

/// `"tcp://"`.
pub open spec fn tcp_scheme() -> Seq<char> {
    seq!['t', 'c', 'p', ':', '/', '/']
}

/// A character that ends a URI inside markdown text: whitespace, a backtick,
/// `<`, `)` or `"`.
pub open spec fn is_stop_spec(c: char) -> bool {
    is_whitespace_spec(c) || c == '`' || c == '<' || c == ')' || c == '"'
}

/// The end of the token that starts at `i`: the first stop character at or
/// after `i`, or the end of the text.
pub open spec fn token_end_spec(t: Seq<char>, i: int) -> int
    decreases t.len() - i,
{
    if i < 0 || i >= t.len() {
        t.len() as int
    } else if is_stop_spec(t[i]) {
        i
    } else {
        token_end_spec(t, i + 1)
    }
}

/// Every character is an ASCII digit.
pub open spec fn all_digits(p: Seq<char>) -> bool {
    forall|k: int| 0 <= k < p.len() ==> '0' <= #[trigger] p[k] && p[k] <= '9'
}

/// A URI has a port: the text after its last `:`, up to any `?`, is a
/// non-empty run of digits.
pub open spec fn has_port_spec(uri: Seq<char>) -> bool {
    let p = before_first_spec(after_last_spec(uri, ':'), '?');
    p.len() > 0 && all_digits(p)
}

/// The raw token at `i`.
pub open spec fn token_at(t: Seq<char>, i: int) -> Seq<char> {
    t.subrange(i, token_end_spec(t, i))
}

/// A `tls://` or `tcp://` peer URI with a port starts at `i`.
pub open spec fn peer_uri_starts_at(t: Seq<char>, i: int) -> bool {
    &&& (occurs_at(t, i, tls_scheme()) || occurs_at(t, i, tcp_scheme()))
    &&& has_port_spec(token_at(t, i))
}

/// The peer URI at `i`, without any `?query`.
pub open spec fn peer_uri_at(t: Seq<char>, i: int) -> Seq<char> {
    before_first_spec(token_at(t, i), '?')
}

fn is_stop(c: char) -> (b: bool)
    ensures
        b == is_stop_spec(c),
{
    is_whitespace(c) || c == '`' || c == '<' || c == ')' || c == '"'
}

fn token_end(t: &[char], i: usize) -> (e: usize)
    requires
        i <= t@.len(),
    ensures
        e as int == token_end_spec(t@, i as int),
        i <= e <= t@.len(),
{
    let mut j = i;
    while j < t.len() && !is_stop(t[j])
        invariant
            i <= j <= t@.len(),
            token_end_spec(t@, i as int) == token_end_spec(t@, j as int),
        decreases t@.len() - j,
    {
        j = j + 1;
    }
    j
}

fn all_digits_exec(p: &[char]) -> (b: bool)
    ensures
        b == all_digits(p@),
{
    let mut k: usize = 0;
    while k < p.len()
        invariant
            k <= p@.len(),
            forall|m: int| 0 <= m < k ==> '0' <= #[trigger] p@[m] && p@[m] <= '9',
        decreases p@.len() - k,
    {
        if !('0' <= p[k] && p[k] <= '9') {
            return false;
        }
        k = k + 1;
    }
    true
}

fn has_port(uri: &[char]) -> (b: bool)
    ensures
        b == has_port_spec(uri@),
{
    let tail = after_last(uri, ':');
    let p = before_first(tail.as_slice(), '?');
    p.len() > 0 && all_digits_exec(p.as_slice())
}

/// Extract `tcp://` / `tls://` peer URIs (with a port; any `?query` dropped)
/// from a markdown document, sorted and deduplicated. `quic://` peers are
/// skipped (probing and peering are over TCP/TLS).
pub fn extract_peer_uris(text: &str) -> (out: Vec<String>)
    ensures
        strictly_sorted(views(out@)),
        forall|s: Seq<char>| views(out@).contains(s) <==> exists|i: int| #[trigger] peer_uri_starts_at(text@, i) && s == peer_uri_at(text@, i),
        forall|s: Seq<char>, k: int| views(out@).contains(s) && 0 <= k < s.len() ==> {
            let c = #[trigger] s[k];
            &&& !is_whitespace_spec(c)
            &&& c != '`' && c != '<' && c != ')' && c != '"'
        },
        forall|s: Seq<char>| #[trigger] views(out@).contains(s) ==> s.len() >= 6 && (s.take(6) == seq!['t', 'l', 's', ':', '/', '/']
            || s.take(6) == seq!['t', 'c', 'p', ':', '/', '/']),
{
    let t = chars_of(text);
    let tls: [char; 6] = ['t', 'l', 's', ':', '/', '/'];
    let tcp: [char; 6] = ['t', 'c', 'p', ':', '/', '/'];
    assert(tls@ =~= tls_scheme());
    assert(tcp@ =~= tcp_scheme());
    let n = t.len();
    let mut found: Vec<String> = Vec::new();
    let mut i: usize = 0;
    while i < n
        invariant
            n == t@.len(),
            t@ == text@,
            tls@ == tls_scheme(),
            tcp@ == tcp_scheme(),
            i <= n,
            forall|s: Seq<char>| views(found@).contains(s) <==> exists|j: int| 0 <= j < i && #[trigger] peer_uri_starts_at(t@, j) && s == peer_uri_at(t@, j),
        decreases n - i,
    {
        let ghost before = views(found@);
        if matches_at(t.as_slice(), i, &tls) || matches_at(t.as_slice(), i, &tcp) {
            let end = token_end(t.as_slice(), i);
            let token = copy_chars(t.as_slice(), i, end);
            if has_port(token.as_slice()) {
                let uri = before_first(token.as_slice(), '?');
                let s = string_from_chars(uri.as_slice());
                found.push(s);
                proof {
                    let nv = views(found@);
                    assert(nv =~= before.push(s@));
                    assert forall|x: Seq<char>| nv.contains(x) <==> exists|j: int| 0 <= j < i + 1 && #[trigger] peer_uri_starts_at(t@, j) && x == peer_uri_at(t@, j) by {
                        if nv.contains(x) {
                            let k = choose|k: int| 0 <= k < nv.len() && nv[k] == x;
                            if k < before.len() {
                                assert(before[k] == x);
                                assert(before.contains(x));
                                let j = choose|j: int| 0 <= j < i && #[trigger] peer_uri_starts_at(t@, j) && x == peer_uri_at(t@, j);
                                assert(peer_uri_starts_at(t@, j));
                            } else {
                                assert(token@ == token_at(t@, i as int));
                                assert(peer_uri_starts_at(t@, i as int));
                                assert(x == peer_uri_at(t@, i as int));
                            }
                        }
                        if exists|j: int| 0 <= j < i + 1 && #[trigger] peer_uri_starts_at(t@, j) && x == peer_uri_at(t@, j) {
                            let j = choose|j: int| 0 <= j < i + 1 && #[trigger] peer_uri_starts_at(t@, j) && x == peer_uri_at(t@, j);
                            if j < i {
                                assert(exists|j2: int| 0 <= j2 < i && #[trigger] peer_uri_starts_at(t@, j2) && x == peer_uri_at(t@, j2));
                                assert(before.contains(x));
                                let k = choose|k: int| 0 <= k < before.len() && before[k] == x;
                                assert(nv[k] == x);
                            } else {
                                assert(nv[before.len() as int] == x);
                            }
                        }
                    }
                }
            } else {
                proof {
                    assert forall|x: Seq<char>| views(found@).contains(x) <==> exists|j: int| 0 <= j < i + 1 && #[trigger] peer_uri_starts_at(t@, j) && x == peer_uri_at(t@, j) by {
                        if exists|j: int| 0 <= j < i + 1 && #[trigger] peer_uri_starts_at(t@, j) && x == peer_uri_at(t@, j) {
                            let j = choose|j: int| 0 <= j < i + 1 && #[trigger] peer_uri_starts_at(t@, j) && x == peer_uri_at(t@, j);
                            assert(j < i);
                        }
                    }
                }
            }
        } else {
            proof {
                assert forall|x: Seq<char>| views(found@).contains(x) <==> exists|j: int| 0 <= j < i + 1 && #[trigger] peer_uri_starts_at(t@, j) && x == peer_uri_at(t@, j) by {
                    if exists|j: int| 0 <= j < i + 1 && #[trigger] peer_uri_starts_at(t@, j) && x == peer_uri_at(t@, j) {
                        let j = choose|j: int| 0 <= j < i + 1 && #[trigger] peer_uri_starts_at(t@, j) && x == peer_uri_at(t@, j);
                        assert(j < i);
                    }
                }
            }
        }
        i = i + 1;
    }
    assert forall|j: int| #[trigger] peer_uri_starts_at(t@, j) implies 0 <= j < n by {}
    let out = sort_dedup(found);
    proof {
        assert forall|s: Seq<char>, k: int| views(out@).contains(s) && 0 <= k < s.len() implies {
            let c = #[trigger] s[k];
            &&& !is_whitespace_spec(c)
            &&& c != '`' && c != '<' && c != ')' && c != '"'
        } by {
            let i = choose|i: int| #[trigger] peer_uri_starts_at(text@, i) && s == peer_uri_at(text@, i);
            lemma_peer_uri_holds_no_stop(text@, i);
        }
        assert forall|s: Seq<char>| #[trigger] views(out@).contains(s) implies s.len() >= 6 && (s.take(6) == seq!['t', 'l', 's', ':', '/', '/']
            || s.take(6) == seq!['t', 'c', 'p', ':', '/', '/']) by {
            let i = choose|i: int| #[trigger] peer_uri_starts_at(text@, i) && s == peer_uri_at(text@, i);
            lemma_peer_uri_has_scheme(text@, i);
        }
    }
    out
}


/// Every character of the token at `i` before its end is no stop character.
proof fn lemma_token_holds_no_stop(t: Seq<char>, i: int, j: int)
    requires
        0 <= i <= j < token_end_spec(t, i),
    ensures
        !is_stop_spec(t[j]),
    decreases t.len() - i,
{
    if i < t.len() && !is_stop_spec(t[i]) && j > i {
        lemma_token_holds_no_stop(t, i + 1, j);
    }
}

/// The end of the token at `i` lies between `i` and the end of the text.
proof fn lemma_token_end_bounds(t: Seq<char>, i: int)
    requires
        0 <= i <= t.len(),
    ensures
        i <= token_end_spec(t, i) <= t.len(),
    decreases t.len() - i,
{
    if i < t.len() && !is_stop_spec(t[i]) {
        lemma_token_end_bounds(t, i + 1);
    }
}

/// A token that runs over non-stop characters up to a stop character at `e`
/// ends at `e`.
proof fn lemma_token_ends_at(t: Seq<char>, i: int, e: int)
    requires
        0 <= i <= e < t.len(),
        forall|j: int| i <= j < e ==> !is_stop_spec(#[trigger] t[j]),
        is_stop_spec(t[e]),
    ensures
        token_end_spec(t, i) == e,
    decreases e - i,
{
    if i < e {
        lemma_token_ends_at(t, i + 1, e);
    }
}

/// The part before the first `c` is a prefix.
proof fn lemma_before_first_prefix(u: Seq<char>, c: char)
    ensures
        before_first_spec(u, c).len() <= u.len(),
        forall|k: int| 0 <= k < before_first_spec(u, c).len() ==> #[trigger] before_first_spec(u, c)[k] == u[k],
    decreases u.len(),
{
    if u.len() > 0 && u[0] != c {
        lemma_before_first_prefix(u.drop_first(), c);
        let r = before_first_spec(u.drop_first(), c);
        assert forall|k: int| 0 <= k < (seq![u[0]] + r).len() implies #[trigger] (seq![u[0]] + r)[k] == u[k] by {
            if k > 0 {
                assert(r[k - 1] == u.drop_first()[k - 1]);
            }
        }
    }
}

/// With no `c` in it, the part before the first `c` is all of it.
proof fn lemma_before_first_whole(u: Seq<char>, c: char)
    requires
        forall|k: int| 0 <= k < u.len() ==> #[trigger] u[k] != c,
    ensures
        before_first_spec(u, c) == u,
    decreases u.len(),
{
    if u.len() > 0 {
        lemma_before_first_whole(u.drop_first(), c);
        assert(seq![u[0]] + u.drop_first() =~= u);
    } else {
        assert(u =~= Seq::<char>::empty());
    }
}

/// The part after the last `c` of `x`, `c`, `p` is `p` when `p` holds no `c`.
proof fn lemma_after_last_tail(x: Seq<char>, c: char, p: Seq<char>)
    requires
        forall|k: int| 0 <= k < p.len() ==> #[trigger] p[k] != c,
    ensures
        after_last_spec(x + seq![c] + p, c) == p,
    decreases p.len(),
{
    let z = x + seq![c] + p;
    if p.len() == 0 {
        assert(z.last() == c);
        assert(p =~= Seq::<char>::empty());
    } else {
        assert(z.drop_last() =~= x + seq![c] + p.drop_last());
        assert(z.last() == p.last());
        assert(p[p.len() - 1] != c);
        lemma_after_last_tail(x, c, p.drop_last());
        assert(p.drop_last().push(p.last()) =~= p);
    }
}

/// A URI taken from the public peer lists never runs past the end of its
/// token: it holds no whitespace, backtick, `<`, `)` or `"`, so a markdown
/// link target or an inline code span gives the bare URI.
pub proof fn lemma_peer_uri_holds_no_stop(t: Seq<char>, i: int)
    requires
        peer_uri_starts_at(t, i),
    ensures
        forall|k: int| 0 <= k < peer_uri_at(t, i).len() ==> {
            let c = #[trigger] peer_uri_at(t, i)[k];
            &&& !is_whitespace_spec(c)
            &&& c != '`' && c != '<' && c != ')' && c != '"'
        },
{
    assert(0 <= i && i + 6 <= t.len());
    lemma_token_end_bounds(t, i);
    let tok = token_at(t, i);
    lemma_before_first_prefix(tok, '?');
    assert forall|k: int| 0 <= k < peer_uri_at(t, i).len() implies {
        let c = #[trigger] peer_uri_at(t, i)[k];
        &&& !is_whitespace_spec(c)
        &&& c != '`' && c != '<' && c != ')' && c != '"'
    } by {
        assert(peer_uri_at(t, i)[k] == tok[k]);
        assert(tok[k] == t[i + k]);
        lemma_token_holds_no_stop(t, i, i + k);
    }
}

/// A token over non-stop characters reaches at least as far as they go.
proof fn lemma_token_end_past(t: Seq<char>, i: int, m: int)
    requires
        0 <= i <= m <= t.len(),
        forall|j: int| i <= j < m ==> !is_stop_spec(#[trigger] t[j]),
    ensures
        token_end_spec(t, i) >= m,
    decreases m - i,
{
    if i < m {
        lemma_token_end_past(t, i + 1, m);
    } else {
        lemma_token_end_bounds(t, i);
    }
}

/// The part before the first `c` keeps a leading run without `c`.
proof fn lemma_before_first_keeps(u: Seq<char>, c: char, m: int)
    requires
        0 <= m <= u.len(),
        forall|k: int| 0 <= k < m ==> #[trigger] u[k] != c,
    ensures
        before_first_spec(u, c).len() >= m,
    decreases m,
{
    if m > 0 {
        assert(u[0] != c);
        assert forall|k: int| 0 <= k < m - 1 implies #[trigger] u.drop_first()[k] != c by {
            assert(u.drop_first()[k] == u[k + 1]);
        }
        lemma_before_first_keeps(u.drop_first(), c, m - 1);
    }
}

/// A URI taken from the public peer lists starts with `tls://` or `tcp://`.
pub proof fn lemma_peer_uri_has_scheme(t: Seq<char>, i: int)
    requires
        peer_uri_starts_at(t, i),
    ensures
        peer_uri_at(t, i).len() >= 6,
        peer_uri_at(t, i).take(6) == seq!['t', 'l', 's', ':', '/', '/']
            || peer_uri_at(t, i).take(6) == seq!['t', 'c', 'p', ':', '/', '/'],
{
    let sch = t.subrange(i, i + 6);
    assert(sch == tls_scheme() || sch == tcp_scheme());
    assert forall|j: int| i <= j < i + 6 implies !is_stop_spec(#[trigger] t[j]) by {
        assert(t[j] == sch[j - i]);
    }
    lemma_token_end_past(t, i, i + 6);
    lemma_token_end_bounds(t, i);
    let tok = token_at(t, i);
    assert forall|k: int| 0 <= k < 6 implies #[trigger] tok[k] != '?' by {
        assert(tok[k] == sch[k]);
    }
    lemma_before_first_keeps(tok, '?', 6);
    lemma_before_first_prefix(tok, '?');
    let uri = peer_uri_at(t, i);
    assert(uri.take(6) =~= sch);
}

/// A peer written as a markdown link target is found exactly: for a
/// `tls://` or `tcp://` scheme, a host with no stop character and no `?`, and a
/// non-empty run of digits as port, the text `pre` + `(` + URI + `)` + `post`
/// has that URI, and nothing more, as a peer URI.
pub proof fn lemma_link_target_is_extracted(pre: Seq<char>, scheme: Seq<char>, host: Seq<char>, port: Seq<char>, post: Seq<char>)
    requires
        scheme == tls_scheme() || scheme == tcp_scheme(),
        forall|k: int| 0 <= k < host.len() ==> {
            let c = #[trigger] host[k];
            &&& !is_whitespace_spec(c)
            &&& c != '`' && c != '<' && c != ')' && c != '"' && c != '?'
        },
        port.len() > 0,
        all_digits(port),
    ensures
        ({
            let uri = scheme + host + seq![':'] + port;
            let t = pre + seq!['('] + uri + seq![')'] + post;
            &&& peer_uri_starts_at(t, pre.len() + 1int)
            &&& peer_uri_at(t, pre.len() + 1int) == uri
        }),
{
    let uri = scheme + host + seq![':'] + port;
    let t = pre + seq!['('] + uri + seq![')'] + post;
    let i: int = pre.len() + 1int;
    let e: int = i + uri.len();
    assert(t.subrange(i, e) =~= uri);
    assert(t[e] == ')');
    assert forall|j: int| i <= j < e implies !is_stop_spec(#[trigger] t[j]) by {
        let k = j - i;
        assert(t[j] == uri[k]);
        if k < scheme.len() {
            assert(uri[k] == scheme[k]);
        } else if k < scheme.len() + host.len() {
            assert(uri[k] == host[k - scheme.len()]);
        } else if k == scheme.len() + host.len() {
            assert(uri[k] == ':');
        } else {
            assert(uri[k] == port[k - scheme.len() - host.len() - 1]);
        }
    }
    lemma_token_ends_at(t, i, e);
    assert(token_at(t, i) == uri);
    assert(t.subrange(i, i + 6) =~= scheme);
    assert forall|k: int| 0 <= k < port.len() implies #[trigger] port[k] != ':' by {
        assert('0' <= port[k] && port[k] <= '9');
    }
    lemma_after_last_tail(scheme + host, ':', port);
    assert(scheme + host + seq![':'] + port == uri);
    assert forall|k: int| 0 <= k < port.len() implies #[trigger] port[k] != '?' by {
        assert('0' <= port[k] && port[k] <= '9');
    }
    lemma_before_first_whole(port, '?');
    assert forall|k: int| 0 <= k < uri.len() implies #[trigger] uri[k] != '?' by {
        if k < scheme.len() {
            assert(uri[k] == scheme[k]);
        } else if k < scheme.len() + host.len() {
            assert(uri[k] == host[k - scheme.len()]);
        } else if k == scheme.len() + host.len() {
            assert(uri[k] == ':');
        } else {
            assert(uri[k] == port[k - scheme.len() - host.len() - 1]);
        }
    }
    lemma_before_first_whole(uri, '?');
    assert(has_port_spec(uri));
}

/// `"://"`.
pub open spec fn scheme_sep() -> Seq<char> {
    seq![':', '/', '/']
}

/// The authority part of a URI: the text between the first `://` and the next
/// one (or the end), as `uri.split("://").nth(1)` yields; `None` without `://`.
pub open spec fn authority_spec(t: Seq<char>) -> Option<Seq<char>> {
    let a = find_from(t, scheme_sep(), 0);
    if a < 0 {
        None
    } else {
        let b = find_from(t, scheme_sep(), a + 3);
        Some(t.subrange(a + 3, if b < 0 { t.len() as int } else { b }))
    }
}

/// The `host:port` socket-address form of a peer URI: a bracketed IPv6
/// authority must contain `]:`, any other must contain a `:`.
pub open spec fn socket_addr_spec(t: Seq<char>) -> Option<Seq<char>> {
    match authority_spec(t) {
        None => None,
        Some(rest) => if rest.len() > 0 && rest[0] == '[' {
            if find_from(rest, seq![']', ':'], 0) >= 0 { Some(rest) } else { None }
        } else {
            if find_from(rest, seq![':'], 0) >= 0 { Some(rest) } else { None }
        },
    }
}

proof fn lemma_find_from_bounds(t: Seq<char>, pat: Seq<char>, i: int)
    ensures
        find_from(t, pat, i) == -1 || (i <= find_from(t, pat, i) && find_from(t, pat, i) + pat.len() <= t.len()),
    decreases t.len() + 1 - i,
{
    if !(i < 0 || i + pat.len() > t.len()) && !occurs_at(t, i, pat) {
        lemma_find_from_bounds(t, pat, i + 1);
    }
}

/// `host:port` (socket-address form) from a peer URI, or `None` if unparseable.
pub fn socket_addr_of(uri: &str) -> (r: Option<String>)
    ensures
        match r {
            Some(s) => socket_addr_spec(uri@) == Some(s@),
            None => socket_addr_spec(uri@) is None,
        },
{
    let t = chars_of(uri);
    let sep: [char; 3] = [':', '/', '/'];
    assert(sep@ =~= scheme_sep());
    let a = match find_exec(t.as_slice(), &sep, 0) {
        Some(a) => a,
        None => return None,
    };
    proof { lemma_find_from_bounds(t@, scheme_sep(), 0); }
    let tl = t.len();
    assert(a + 3 <= tl);
    let end = match find_exec(t.as_slice(), &sep, a + 3) {
        Some(b) => b,
        None => t.len(),
    };
    proof { lemma_find_from_bounds(t@, scheme_sep(), a + 3); }
    let rest = copy_chars(t.as_slice(), a + 3, end);
    if rest.len() > 0 && rest[0] == '[' {
        let close: [char; 2] = [']', ':'];
        assert(close@ =~= seq![']', ':']);
        match find_exec(rest.as_slice(), &close, 0) {
            Some(_) => Some(string_from_chars(rest.as_slice())),
            None => None,
        }
    } else {
        let colon: [char; 1] = [':'];
        assert(colon@ =~= seq![':']);
        match find_exec(rest.as_slice(), &colon, 0) {
            Some(_) => Some(string_from_chars(rest.as_slice())),
            None => None,
        }
    }
}

/// All region directories of the public-peers repository.
pub const ALL_REGIONS: [&'static str; 7] = [
    "africa",
    "asia",
    "australia",
    "europe",
    "mena",
    "north-america",
    "south-america",
];

/// Coarse region buckets for a UTC offset given in whole hours.
pub open spec fn regions_spec(hours: int) -> Seq<&'static str> {
    if -12 <= hours <= -3 {
        seq!["north-america", "south-america"]
    } else if -2 <= hours <= 2 {
        seq!["europe", "africa"]
    } else if 3 <= hours <= 5 {
        seq!["europe", "mena", "asia"]
    } else if 6 <= hours <= 14 {
        seq!["asia", "australia"]
    } else {
        ALL_REGIONS@
    }
}

/// Coarse region buckets from the local UTC offset in seconds (whole hours,
/// rounded toward zero). Latency probing makes the final call; this just keeps
/// the candidate fetch small.
pub fn regions_for_offset(offset_seconds: i32) -> (r: Vec<&'static str>)
    ensures
        r@ == regions_spec(if offset_seconds >= 0 { offset_seconds / 3600 } else { -((-offset_seconds) / 3600) }),
{
    let hours: i32 = if offset_seconds >= 0 { offset_seconds / 3600 } else { -((-(offset_seconds as i64)) / 3600) as i32 };
    let r = if -12 <= hours && hours <= -3 {
        vec!["north-america", "south-america"]
    } else if -2 <= hours && hours <= 2 {
        vec!["europe", "africa"]
    } else if 3 <= hours && hours <= 5 {
        vec!["europe", "mena", "asia"]
    } else if 6 <= hours && hours <= 14 {
        vec!["asia", "australia"]
    } else {
        let mut all: Vec<&'static str> = Vec::new();
        let mut k: usize = 0;
        while k < 7
            invariant
                k <= 7,
                all@ == ALL_REGIONS@.take(k as int),
            decreases 7 - k,
        {
            all.push(ALL_REGIONS[k]);
            assert(ALL_REGIONS@.take(k + 1) =~= ALL_REGIONS@.take(k as int).push(ALL_REGIONS@[k as int]));
            k = k + 1;
        }
        assert(ALL_REGIONS@.take(7) =~= ALL_REGIONS@);
        all
    };
    assert(r@ =~= regions_spec(hours as int));
    r
}

/// Parse the peer cache file: one peer per line, blank lines and surrounding
/// whitespace ignored.
pub fn cached_peers_from_text(text: &str) -> (peers: Vec<String>)
    ensures
        views(peers@) == keep_trimmed(split_pieces(text@, '\n')),
{
    split_trimmed(text, '\n')
}

/// The peer cache file's contents for `peers`: one per line.
pub fn cache_text(peers: &[String]) -> (text: String)
    ensures
        text@ == join_spec(views(peers@), '\n'),
{
    join_with(peers, '\n')
}

/// A clean peer URI: non-empty, no surrounding whitespace, no newline.
pub open spec fn clean_peer(p: Seq<char>) -> bool {
    p.len() > 0 && trim_spec(p) == p && !p.contains('\n')
}

/// Reading back the cache written for a list of clean peer URIs gives the same
/// list: the round trip of the peer cache.
pub proof fn lemma_peer_cache_roundtrip(peers: Seq<Seq<char>>)
    requires
        forall|i: int| 0 <= i < peers.len() ==> clean_peer(#[trigger] peers[i]),
    ensures
        keep_trimmed(split_pieces(join_spec(peers, '\n'), '\n')) == peers,
{
    if peers.len() == 0 {
        assert(split_pieces(join_spec(peers, '\n'), '\n') == seq![Seq::<char>::empty()]);
        let e = Seq::<char>::empty();
        assert(crate::text::trim_start_spec(e) == e);
        assert(crate::text::trim_end_spec(e) == e);
        assert(trim_spec(e) == e);
        assert(seq![e].last() == e);
        assert(seq![e].drop_last() =~= Seq::<Seq<char>>::empty());
        let one = seq![e];
        assert(keep_trimmed(one.drop_last()) == Seq::<Seq<char>>::empty());
        assert(keep_trimmed(one) == keep_trimmed(one.drop_last()) + Seq::<Seq<char>>::empty());
        assert(keep_trimmed(one) =~= Seq::<Seq<char>>::empty());
    } else {
        assert forall|i: int| 0 <= i < peers.len() implies !(#[trigger] peers[i]).contains('\n') by {
            assert(clean_peer(peers[i]));
        }
        crate::text::lemma_split_join(peers, '\n');
        assert forall|i: int| 0 <= i < peers.len() implies trim_spec(#[trigger] peers[i]) == peers[i] && peers[i].len() > 0 by {
            assert(clean_peer(peers[i]));
        }
        crate::text::lemma_keep_trimmed_clean(peers);
    }
}


/// How many ranked public peers to actually configure.
pub const SELECT_COUNT: usize = 4;

/// Latencies never decrease along the list.
pub open spec fn by_latency(s: Seq<(String, u128)>) -> bool {
    forall|i: int, j: int| 0 <= i <= j < s.len() ==> (#[trigger] s[i]).1 <= (#[trigger] s[j]).1
}

/// Order probed peers fastest first (connect latency in nanoseconds); peers
/// with equal latency keep their probe order.
pub fn rank_by_latency(probes: Vec<(String, u128)>) -> (ranked: Vec<(String, u128)>)
    ensures
        by_latency(ranked@),
        ranked@.to_multiset() == probes@.to_multiset(),
{
    let mut out: Vec<(String, u128)> = Vec::new();
    let n = probes.len();
    let mut i: usize = 0;
    assert(out@ =~= probes@.take(0));
    while i < n
        invariant
            n == probes@.len(),
            i <= n,
            by_latency(out@),
            out@.to_multiset() == probes@.take(i as int).to_multiset(),
        decreases n - i,
    {
        let item = (probes[i].0.clone(), probes[i].1);
        let key = probes[i].1;
        let mut pos: usize = 0;
        while pos < out.len() && out[pos].1 <= key
            invariant
                pos <= out@.len(),
                by_latency(out@),
                forall|k: int| 0 <= k < pos ==> (#[trigger] out@[k]).1 <= key,
            decreases out@.len() - pos,
        {
            pos = pos + 1;
        }
        let ghost before = out@;
        proof {
            vstd::seq_lib::to_multiset_insert(before, pos as int, item);
            vstd::seq_lib::to_multiset_build(probes@.take(i as int), probes@[i as int]);
            assert(probes@.take(i + 1) =~= probes@.take(i as int).push(probes@[i as int]));
        }
        out.insert(pos, item);
        proof {
            assert(item == probes@[i as int]);
            assert forall|a: int, b: int| 0 <= a <= b < out@.len() implies (#[trigger] out@[a]).1 <= (#[trigger] out@[b]).1 by {
                if b < pos {
                    assert(out@[a] == before[a] && out@[b] == before[b]);
                } else if b == pos {
                    if a < pos {
                        assert(out@[a] == before[a]);
                    }
                } else if a == pos {
                    assert(out@[b] == before[b - 1]);
                    assert(before[pos as int].1 > key);
                    if b - 1 > pos {
                        assert(before[pos as int].1 <= before[b - 1].1);
                    }
                } else if a < pos {
                    assert(out@[a] == before[a] && out@[b] == before[b - 1]);
                } else {
                    assert(out@[a] == before[a - 1] && out@[b] == before[b - 1]);
                }
            }
        }
        i = i + 1;
    }
    assert(probes@.take(n as int) =~= probes@);
    out
}

/// The URIs of the first [`SELECT_COUNT`] ranked peers; an error when none was
/// reachable.
pub fn select_top(ranked: &[(String, u128)]) -> (r: Result<Vec<String>, String>)
    ensures
        ranked@.len() == 0 <==> r is Err,
        r matches Ok(sel) ==> sel@.len() == (if ranked@.len() < SELECT_COUNT { ranked@.len() as int } else { SELECT_COUNT as int })
            && forall|k: int| 0 <= k < sel@.len() ==> #[trigger] sel@[k]@ == ranked@[k].0@,
{
    if ranked.len() == 0 {
        return Err(String::from_str("no public peer is reachable from this network"));
    }
    let mut sel: Vec<String> = Vec::new();
    let mut k: usize = 0;
    while k < ranked.len() && k < SELECT_COUNT
        invariant
            k <= ranked@.len(),
            k <= SELECT_COUNT,
            sel@.len() == k,
            forall|m: int| 0 <= m < k ==> #[trigger] sel@[m]@ == ranked@[m].0@,
        decreases SELECT_COUNT - k,
    {
        sel.push(ranked[k].0.clone());
        k = k + 1;
    }
    Ok(sel)
}

/// Finish a fetch of the public lists: the distinct URIs, sorted; an error when
/// the repository gave nothing at all.
pub fn finish_fetch(uris: Vec<String>) -> (r: Result<Vec<String>, String>)
    ensures
        uris@.len() == 0 <==> r is Err,
        r matches Ok(out) ==> strictly_sorted(views(out@)) && forall|s: Seq<char>| views(out@).contains(s) <==> views(uris@).contains(s),
{
    let out = sort_dedup(uris);
    if out.len() == 0 {
        proof {
            if uris@.len() > 0 {
                assert(views(uris@)[0] == uris@[0]@);
                assert(views(uris@).contains(uris@[0]@));
            }
        }
        return Err(String::from_str("could not fetch any public peers (offline, or GitHub unreachable)"));
    }
    proof {
        assert(views(out@)[0] == out@[0]@);
        assert(views(out@).contains(out@[0]@));
    }
    Ok(out)
}

/// Whether the regional candidates are too thin and the fetch should widen to
/// every region.
pub fn needs_widening(candidates: usize) -> (b: bool)
    ensures
        b == (candidates < 5),
{
    candidates < 5
}

/// The candidates to probe: what was fetched, else the last cached selection,
/// else the bundled seed peers.
pub fn fallback_candidates(fetched: Vec<String>, cached: Vec<String>) -> (out: Vec<String>)
    ensures
        fetched@.len() > 0 ==> out@ == fetched@,
        fetched@.len() == 0 && cached@.len() > 0 ==> out@ == cached@,
        fetched@.len() == 0 && cached@.len() == 0 ==> views(out@) == crate::mesh::default_peers_spec(),
{
    if fetched.len() > 0 {
        fetched
    } else if cached.len() > 0 {
        cached
    } else {
        crate::mesh::default_peers()
    }
}

} // verus!

//! Multi-tavern hosting decisions: which port a new hosted tavern gets, and
//! whether a new tavern may be created at all.

use vstd::prelude::*;
use std::collections::HashSet;
use crate::text::{chars_of, concat_str, push_char, push_decimal, string_from_chars, trim_chars, trim_spec};
use crate::strset::{lemma_lex_irreflexive, sort_dedup, strictly_sorted, views};
use crate::hosting::{local_endpoint, local_endpoint_spec, TavernConnect};

verus! {

broadcast use vstd::std_specs::hash::group_hash_axioms;

/// First port of the hosted-tavern window (the home node owns 50051).
pub const FIRST_TAVERN_PORT: u16 = 50052;
/// Last port of the hosted-tavern window.
pub const LAST_TAVERN_PORT: u16 = 50307;

/// A port of the window that cannot be used: already taken, or one that the
/// bind check reported as busy.
pub open spec fn unusable<F: Fn(u16) -> bool>(taken: Set<u16>, is_free: F, p: u16) -> bool {
    taken.contains(p) || call_ensures(is_free, (p,), false)
}

/// First port in `[FIRST_TAVERN_PORT, LAST_TAVERN_PORT]` that is neither in
/// `taken` nor rejected by `is_free`; the check is injectable for testing.
pub fn first_free_port<F: Fn(u16) -> bool>(taken: &HashSet<u16>, is_free: F) -> (r: Option<u16>)
    requires
        forall|p: u16| #[trigger] call_requires(is_free, (p,)),
    ensures
        match r {
            Some(p) => {
                &&& FIRST_TAVERN_PORT <= p <= LAST_TAVERN_PORT
                &&& !taken@.contains(p)
                &&& call_ensures(is_free, (p,), true)
                &&& forall|q: u16| FIRST_TAVERN_PORT <= q < p ==> #[trigger] unusable(taken@, is_free, q)
            },
            None => forall|q: u16| FIRST_TAVERN_PORT <= q <= LAST_TAVERN_PORT ==> #[trigger] unusable(taken@, is_free, q),
        },
{
    let mut p: u16 = FIRST_TAVERN_PORT;
    loop
        invariant
            FIRST_TAVERN_PORT <= p <= LAST_TAVERN_PORT,
            forall|p: u16| #[trigger] call_requires(is_free, (p,)),
            forall|q: u16| FIRST_TAVERN_PORT <= q < p ==> #[trigger] unusable(taken@, is_free, q),
        decreases LAST_TAVERN_PORT - p,
    {
        if !taken.contains(&p) {
            let free = is_free(p);
            if free {
                return Some(p);
            }
        }
        if p == LAST_TAVERN_PORT {
            return None;
        }
        p = p + 1;
    }
}

/// The trimmed name a new tavern is created with; an empty name is refused.
pub fn tavern_name(name: &str) -> (r: Result<String, String>)
    ensures
        trim_spec(name@).len() == 0 <==> r is Err,
        r matches Ok(n) ==> n@ == trim_spec(name@),
{
    let chars = chars_of(name);
    let trimmed = trim_chars(chars.as_slice());
    if trimmed.len() == 0 {
        return Err(String::from_str("tavern name is required"));
    }
    Ok(string_from_chars(trimmed.as_slice()))
}

/// Whether one more hosted tavern fits under the cap, given how many distinct
/// taverns are already known (persisted or running); the count is taken as a
/// `u32`, as the setting is.
pub fn under_tavern_cap(known: usize, max: u32) -> (ok: bool)
    ensures
        ok == ((known as u32) < max),
{
    (known as u32) < max
}

/// A hosted tavern as persisted, so it re-spawns on launch.
pub struct TavernMeta {
    pub id: String,
    pub name: String,
    pub port: u16,
}

/// How many distinct taverns are known: persisted or running, each id counted
/// once.
pub fn known_tavern_count(persisted: Vec<String>, running: Vec<String>) -> (n: usize)
    ensures
        n == (views(persisted@) + views(running@)).to_set().len(),
{
    let mut all = persisted;
    let ghost p = views(all@);
    let mut i: usize = 0;
    while i < running.len()
        invariant
            i <= running@.len(),
            views(all@) == p + views(running@).take(i as int),
        decreases running@.len() - i,
    {
        let ghost before = views(all@);
        all.push(running[i].clone());
        assert(views(all@) =~= before.push(running@[i as int]@));
        assert(views(running@).take(i + 1) =~= views(running@).take(i as int).push(running@[i as int]@));
        i = i + 1;
    }
    assert(views(running@).take(i as int) =~= views(running@));
    let ghost whole = views(all@);
    let distinct = sort_dedup(all);
    proof {
        let d = views(distinct@);
        assert(d.no_duplicates()) by {
            assert forall|a: int, b: int| 0 <= a < d.len() && 0 <= b < d.len() && a != b implies d[a] != d[b] by {
                if a < b {
                    assert(crate::strset::lex_lt(d[a], d[b]));
                    lemma_lex_irreflexive(d[a]);
                } else {
                    assert(crate::strset::lex_lt(d[b], d[a]));
                    lemma_lex_irreflexive(d[b]);
                }
            }
        }
        d.unique_seq_to_set();
        assert(d.to_set() =~= whole.to_set());
    }
    distinct.len()
}

/// The error when the hosted-tavern cap is reached.
pub fn cap_reached_error(max: u32) -> (e: String)
    ensures
        e@ == "hosted-tavern limit reached ("@ + crate::text::decimal_spec(max as nat)
            + "). Raise it in Settings \u{2192} Network (each hosted tavern uses a port from 50052 up)."@,
{
    let mut e = "hosted-tavern limit reached (".to_owned();
    push_decimal(&mut e, max as usize);
    concat_str(e.as_str(), "). Raise it in Settings \u{2192} Network (each hosted tavern uses a port from 50052 up).")
}

/// The ports already taken: those of running taverns and of every persisted one.
pub fn taken_ports(running: &[u16], persisted: &[TavernMeta]) -> (taken: HashSet<u16>)
    ensures
        forall|p: u16| taken@.contains(p) <==> (running@.contains(p) || exists|i: int|
            0 <= i < persisted@.len() && (#[trigger] persisted@[i]).port == p),
{
    let mut taken: HashSet<u16> = HashSet::new();
    let mut i: usize = 0;
    while i < running.len()
        invariant
            i <= running@.len(),
            forall|p: u16| taken@.contains(p) <==> exists|j: int| 0 <= j < i && running@[j] == p,
        decreases running@.len() - i,
    {
        taken.insert(running[i]);
        proof {
            assert forall|p: u16| taken@.contains(p) <==> exists|j: int| 0 <= j < i + 1 && running@[j] == p by {
                if p == running@[i as int] {
                    assert(running@[i as int] == p);
                }
            }
        }
        i = i + 1;
    }
    let mut k: usize = 0;
    while k < persisted.len()
        invariant
            k <= persisted@.len(),
            forall|p: u16| taken@.contains(p) <==> (running@.contains(p) || exists|j: int|
                0 <= j < k && (#[trigger] persisted@[j]).port == p),
        decreases persisted@.len() - k,
    {
        taken.insert(persisted[k].port);
        proof {
            assert forall|p: u16| taken@.contains(p) <==> (running@.contains(p) || exists|j: int|
                0 <= j < k + 1 && (#[trigger] persisted@[j]).port == p) by {
                if p == persisted@[k as int].port {
                    assert(persisted@[k as int].port == p);
                }
                if exists|j: int| 0 <= j < k + 1 && (#[trigger] persisted@[j]).port == p {
                    let j = choose|j: int| 0 <= j < k + 1 && (#[trigger] persisted@[j]).port == p;
                    if j < k {
                        assert(persisted@[j].port == p);
                    }
                }
            }
        }
        k = k + 1;
    }
    taken
}

/// How to reach a tavern hosted on `port` (TLS on localhost, pinning `cert`).
pub fn tavern_connect(meta: &TavernMeta, cert: String) -> (c: TavernConnect)
    ensures
        c.id == meta.id,
        c.name == meta.name,
        c.endpoint@ == local_endpoint_spec(meta.port, true),
        c.cert == Some(cert),
{
    TavernConnect {
        id: meta.id.clone(),
        name: meta.name.clone(),
        endpoint: local_endpoint(meta.port, true),
        cert: Some(cert),
    }
}

/// The database URL of a tavern's SQLite file: `sqlite:` and the path with
/// backslashes turned into slashes.
pub open spec fn sqlite_url_spec(path: Seq<char>) -> Seq<char> {
    "sqlite:"@ + Seq::new(path.len(), |i: int| if path[i] == '\\' { '/' } else { path[i] })
}

/// The database URL of a tavern's SQLite file.
pub fn sqlite_url(path: &str) -> (url: String)
    ensures
        url@ == sqlite_url_spec(path@),
{
    let cs = chars_of(path);
    let mut url = "sqlite:".to_owned();
    let ghost head = url@;
    let mut i: usize = 0;
    while i < cs.len()
        invariant
            cs@ == path@,
            i <= cs@.len(),
            url@ == head + Seq::new(i as nat, |j: int| if path@[j] == '\\' { '/' } else { path@[j] }),
        decreases cs@.len() - i,
    {
        let c = if cs[i] == '\\' { '/' } else { cs[i] };
        push_char(&mut url, c);
        assert(Seq::new((i + 1) as nat, |j: int| if path@[j] == '\\' { '/' } else { path@[j] })
            =~= Seq::new(i as nat, |j: int| if path@[j] == '\\' { '/' } else { path@[j] }).push(c));
        i = i + 1;
    }
    assert(Seq::new(i as nat, |j: int| if path@[j] == '\\' { '/' } else { path@[j] })
        =~= Seq::new(path@.len(), |j: int| if path@[j] == '\\' { '/' } else { path@[j] }));
    url
}

/// The error when a tavern's port is already bound.
pub fn port_in_use_error(port: u16) -> (e: String)
    ensures
        e@ == "port "@ + crate::text::decimal_spec(port as nat) + " is already in use"@,
{
    let mut e = "port ".to_owned();
    push_decimal(&mut e, port as usize);
    concat_str(e.as_str(), " is already in use")
}

/// Which persisted taverns to re-spawn on launch: those not already running,
/// in order.
pub fn to_resume(metas: Vec<TavernMeta>, running_ids: &[String]) -> (out: Vec<TavernMeta>)
    ensures
        out@.len() <= metas@.len(),
        forall|i: int| 0 <= i < out@.len() ==> metas@.contains(#[trigger] out@[i]) && !views(running_ids@).contains(out@[i].id@),
        forall|i: int| 0 <= i < metas@.len() && !views(running_ids@).contains((#[trigger] metas@[i]).id@) ==> out@.contains(metas@[i]),
{
    let mut rest = metas;
    let ghost orig = rest@;
    let ghost mut k: int = 0;
    let mut out: Vec<TavernMeta> = Vec::new();
    assert(orig.skip(0) =~= orig);
    while rest.len() > 0
        invariant
            0 <= k <= orig.len(),
            rest@ == orig.skip(k),
            out@.len() <= k,
            forall|i: int| 0 <= i < out@.len() ==> orig.contains(#[trigger] out@[i]) && !views(running_ids@).contains(out@[i].id@),
            forall|i: int| 0 <= i < k && !views(running_ids@).contains((#[trigger] orig[i]).id@) ==> out@.contains(orig[i]),
        decreases rest@.len(),
    {
        let m = rest.remove(0);
        assert(m == orig[k]);
        let mut running = false;
        let mut j: usize = 0;
        while j < running_ids.len()
            invariant
                j <= running_ids@.len(),
                running == exists|t: int| 0 <= t < j && running_ids@[t]@ == m.id@,
            decreases running_ids@.len() - j,
        {
            if crate::text::str_eq(running_ids[j].as_str(), m.id.as_str()) {
                running = true;
            }
            j = j + 1;
        }
        proof {
            if running {
                let t = choose|t: int| 0 <= t < j && running_ids@[t]@ == m.id@;
                assert(views(running_ids@)[t] == m.id@);
            } else {
                assert forall|t: int| 0 <= t < views(running_ids@).len() implies views(running_ids@)[t] != m.id@ by {
                    assert(views(running_ids@)[t] == running_ids@[t]@);
                }
            }
        }
        let ghost before = out@;
        if !running {
            out.push(m);
            proof {
                assert(out@[before.len() as int] == orig[k]);
            }
        }
        proof {
            assert forall|i: int| 0 <= i < out@.len() implies orig.contains(#[trigger] out@[i]) && !views(running_ids@).contains(out@[i].id@) by {
                if i < before.len() {
                    assert(out@[i] == before[i]);
                } else {
                    assert(orig[k] == out@[i]);
                }
            }
            assert forall|i: int| 0 <= i < k + 1 && !views(running_ids@).contains((#[trigger] orig[i]).id@) implies out@.contains(orig[i]) by {
                if i < k {
                    let w = choose|w: int| 0 <= w < before.len() && before[w] == orig[i];
                    assert(out@[w] == orig[i]);
                } else {
                    assert(out@[before.len() as int] == orig[i]);
                }
            }
            k = k + 1;
        }
        assert(rest@ =~= orig.skip(k));
    }
    out
}

} // verus!

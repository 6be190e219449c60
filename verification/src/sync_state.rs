//! What is waiting to be uploaded to each account's vault: the latest MLS
//! snapshot and the groups whose history changed, per user. Marking is cheap;
//! one background flusher takes everything marked and uploads it.

use vstd::prelude::*;
use crate::text::str_eq;

verus! {

/// Pending-upload state, keyed by the owning account's user id.
pub struct Sync {
    /// Latest serialized MLS state awaiting upload, per user.
    pub mls: Vec<(String, Vec<u8>)>,
    /// Group ids whose history archive changed, per user.
    pub groups: Vec<(String, Vec<String>)>,
    /// Whether the flusher has been started.
    pub started: bool,
}

/// Each user appears at most once among the MLS snapshots.
pub open spec fn mls_users_unique(s: Seq<(String, Vec<u8>)>) -> bool {
    forall|i: int, j: int| 0 <= i < j < s.len() ==> (#[trigger] s[i]).0@ != (#[trigger] s[j]).0@
}

/// Each user appears at most once among the group lists, and no list repeats
/// a group.
pub open spec fn groups_unique(s: Seq<(String, Vec<String>)>) -> bool {
    &&& forall|i: int, j: int| 0 <= i < j < s.len() ==> (#[trigger] s[i]).0@ != (#[trigger] s[j]).0@
    &&& forall|i: int, a: int, b: int|
        0 <= i < s.len() && 0 <= a < b < s[i].1@.len() ==> (#[trigger] s[i].1@[a])@ != (
        #[trigger] s[i].1@[b])@
}

/// Whether a group list holds group `g`.
pub open spec fn holds_group(l: Seq<String>, g: Seq<char>) -> bool {
    exists|j: int| 0 <= j < l.len() && (#[trigger] l[j])@ == g
}

/// The state's invariant.
pub open spec fn sync_wf(s: Sync) -> bool {
    mls_users_unique(s.mls@) && groups_unique(s.groups@)
}

/// The MLS snapshot waiting for `user`, if any.
pub open spec fn pending_mls(s: Seq<(String, Vec<u8>)>, user: Seq<char>) -> Option<Seq<u8>> {
    if exists|i: int| 0 <= i < s.len() && (#[trigger] s[i]).0@ == user {
        Some(s[choose|i: int| 0 <= i < s.len() && (#[trigger] s[i]).0@ == user].1@)
    } else {
        None
    }
}

/// Whether group `group` of `user` is waiting to be uploaded.
pub open spec fn group_pending(s: Seq<(String, Vec<String>)>, user: Seq<char>, group: Seq<char>) -> bool {
    exists|i: int, j: int|
        0 <= i < s.len() && (#[trigger] s[i]).0@ == user && 0 <= j < s[i].1@.len() && (
        #[trigger] s[i].1@[j])@ == group
}

/// Nothing pending, flusher not started.
pub fn new_sync() -> (s: Sync)
    ensures
        sync_wf(s),
        s.mls@.len() == 0,
        s.groups@.len() == 0,
        !s.started,
{
    Sync { mls: Vec::new(), groups: Vec::new(), started: false }
}

/// Mark `user`'s MLS snapshot dirty with its latest bytes (replacing any
/// earlier pending snapshot of that user).
pub fn mark_mls(s: &mut Sync, user_id: &str, bytes: Vec<u8>)
    requires
        sync_wf(*old(s)),
    ensures
        sync_wf(*final(s)),
        final(s).groups == old(s).groups,
        final(s).started == old(s).started,
        pending_mls(final(s).mls@, user_id@) == Some(bytes@),
        forall|u: Seq<char>| u != user_id@ ==> pending_mls(final(s).mls@, u) == pending_mls(old(s).mls@, u),
{
    let ghost m0 = s.mls@;
    let mut k: usize = 0;
    while k < s.mls.len()
        invariant
            s.mls@ == m0,
            m0 == old(s).mls@,
            sync_wf(*old(s)),
            mls_users_unique(m0),
            s.groups == old(s).groups,
            s.started == old(s).started,
            k <= m0.len(),
            forall|j: int| 0 <= j < k ==> (#[trigger] m0[j]).0@ != user_id@,
        decreases m0.len() - k,
    {
        if str_eq(s.mls[k].0.as_str(), user_id) {
            let (name, _old_bytes) = s.mls.remove(k);
            s.mls.insert(k, (name, bytes));
            proof {
                let m1 = s.mls@;
                assert(m1 =~= m0.update(k as int, m1[k as int]));
                assert(m1[k as int].0 == m0[k as int].0);
                assert forall|i: int, j: int| 0 <= i < j < m1.len() implies (#[trigger] m1[i]).0@ != (#[trigger] m1[j]).0@ by {
                    assert(m1[i].0 == m0[i].0 && m1[j].0 == m0[j].0);
                }
                assert(m1[k as int].0@ == user_id@);
                let c = choose|i: int| 0 <= i < m1.len() && (#[trigger] m1[i]).0@ == user_id@;
                assert(c == k);
                assert forall|u: Seq<char>| u != user_id@ implies pending_mls(m1, u) == pending_mls(m0, u) by {
                    if exists|i: int| 0 <= i < m0.len() && (#[trigger] m0[i]).0@ == u {
                        let i0 = choose|i: int| 0 <= i < m0.len() && (#[trigger] m0[i]).0@ == u;
                        assert(m1[i0].0@ == u);
                        let i1 = choose|i: int| 0 <= i < m1.len() && (#[trigger] m1[i]).0@ == u;
                        assert(i1 == i0);
                        assert(i0 != k);
                    } else {
                        assert forall|i: int| 0 <= i < m1.len() implies (#[trigger] m1[i]).0@ != u by {
                            assert(m1[i].0 == m0[i].0);
                        }
                    }
                }
            }
            return;
        }
        k = k + 1;
    }
    s.mls.push((user_id.to_owned(), bytes));
    proof {
        let m1 = s.mls@;
        let n = m0.len() as int;
        assert forall|i: int, j: int| 0 <= i < j < m1.len() implies (#[trigger] m1[i]).0@ != (#[trigger] m1[j]).0@ by {
            if j < n {
                assert(m1[i] == m0[i] && m1[j] == m0[j]);
            } else {
                assert(m1[i] == m0[i]);
            }
        }
        assert(m1[n].0@ == user_id@);
        let c = choose|i: int| 0 <= i < m1.len() && (#[trigger] m1[i]).0@ == user_id@;
        assert(c == n);
        assert forall|u: Seq<char>| u != user_id@ implies pending_mls(m1, u) == pending_mls(m0, u) by {
            if exists|i: int| 0 <= i < m0.len() && (#[trigger] m0[i]).0@ == u {
                let i0 = choose|i: int| 0 <= i < m0.len() && (#[trigger] m0[i]).0@ == u;
                assert(m1[i0] == m0[i0]);
                let i1 = choose|i: int| 0 <= i < m1.len() && (#[trigger] m1[i]).0@ == u;
                assert(i1 == i0);
            } else {
                assert forall|i: int| 0 <= i < m1.len() implies (#[trigger] m1[i]).0@ != u by {
                    if i < n {
                        assert(m1[i] == m0[i]);
                    }
                }
            }
        }
    }
}

proof fn lemma_group_update(
    g0: Seq<(String, Vec<String>)>,
    g1: Seq<(String, Vec<String>)>,
    k: int,
    user: Seq<char>,
    group: Seq<char>,
)
    requires
        groups_unique(g0),
        0 <= k < g0.len(),
        g0[k].0@ == user,
        g1.len() == g0.len(),
        forall|i: int| 0 <= i < g0.len() && i != k ==> #[trigger] g1[i] == g0[i],
        g1[k].0 == g0[k].0,
        exists|j: int| 0 <= j < g1[k].1@.len() && (#[trigger] g1[k].1@[j])@ == group,
        forall|a: int, b: int| 0 <= a < b < g1[k].1@.len() ==> (#[trigger] g1[k].1@[a])@ != (#[trigger] g1[k].1@[b])@,
        forall|h: Seq<char>| h != group ==> (#[trigger] holds_group(g1[k].1@, h) == holds_group(g0[k].1@, h)),
    ensures
        groups_unique(g1),
        group_pending(g1, user, group),
        forall|u: Seq<char>, g: Seq<char>|
            !(u == user && g == group) ==> (group_pending(g1, u, g) == group_pending(g0, u, g)),
{
    assert forall|i: int, j: int| 0 <= i < j < g1.len() implies (#[trigger] g1[i]).0@ != (#[trigger] g1[j]).0@ by {
        assert(g1[i].0 == g0[i].0 && g1[j].0 == g0[j].0);
    }
    assert forall|i: int, a: int, b: int|
        0 <= i < g1.len() && 0 <= a < b < g1[i].1@.len() implies (#[trigger] g1[i].1@[a])@ != (#[trigger] g1[i].1@[b])@ by {
        if i != k {
            assert(g1[i] == g0[i]);
        }
    }
    let jw = choose|j: int| 0 <= j < g1[k].1@.len() && (#[trigger] g1[k].1@[j])@ == group;
    assert(g1[k].1@[jw]@ == group);
    assert forall|u: Seq<char>, g: Seq<char>|
        !(u == user && g == group) implies (group_pending(g1, u, g) == group_pending(g0, u, g)) by {
        if group_pending(g0, u, g) {
            let (i, j) = choose|i: int, j: int| 0 <= i < g0.len() && (#[trigger] g0[i]).0@ == u && 0 <= j < g0[i].1@.len() && (#[trigger] g0[i].1@[j])@ == g;
            if i != k {
                assert(g1[i] == g0[i]);
                assert(g1[i].1@[j]@ == g);
            } else {
                assert(g != group);
                assert(holds_group(g0[k].1@, g));
                assert(holds_group(g1[k].1@, g));
                let j2 = choose|j2: int| 0 <= j2 < g1[k].1@.len() && (#[trigger] g1[k].1@[j2])@ == g;
                assert(g1[k].1@[j2]@ == g);
            }
        }
        if group_pending(g1, u, g) {
            let (i, j) = choose|i: int, j: int| 0 <= i < g1.len() && (#[trigger] g1[i]).0@ == u && 0 <= j < g1[i].1@.len() && (#[trigger] g1[i].1@[j])@ == g;
            if i != k {
                assert(g1[i] == g0[i]);
                assert(g0[i].1@[j]@ == g);
            } else {
                assert(g != group);
                assert(holds_group(g1[k].1@, g));
                assert(holds_group(g0[k].1@, g));
                let j2 = choose|j2: int| 0 <= j2 < g0[k].1@.len() && (#[trigger] g0[k].1@[j2])@ == g;
                assert(g0[k].1@[j2]@ == g);
            }
        }
    }
}

proof fn lemma_group_push(
    g0: Seq<(String, Vec<String>)>,
    g1: Seq<(String, Vec<String>)>,
    user: Seq<char>,
    group: Seq<char>,
)
    requires
        groups_unique(g0),
        forall|j: int| 0 <= j < g0.len() ==> (#[trigger] g0[j]).0@ != user,
        g1.len() == g0.len() + 1,
        forall|i: int| 0 <= i < g0.len() ==> #[trigger] g1[i] == g0[i],
        g1[g0.len() as int].0@ == user,
        g1[g0.len() as int].1@.len() == 1,
        g1[g0.len() as int].1@[0]@ == group,
    ensures
        groups_unique(g1),
        group_pending(g1, user, group),
        forall|u: Seq<char>, g: Seq<char>|
            !(u == user && g == group) ==> (group_pending(g1, u, g) == group_pending(g0, u, g)),
{
    let n = g0.len() as int;
    assert forall|i: int, j: int| 0 <= i < j < g1.len() implies (#[trigger] g1[i]).0@ != (#[trigger] g1[j]).0@ by {
        if j < n {
            assert(g1[i] == g0[i] && g1[j] == g0[j]);
        } else {
            assert(g1[i] == g0[i]);
        }
    }
    assert forall|i: int, a: int, b: int|
        0 <= i < g1.len() && 0 <= a < b < g1[i].1@.len() implies (#[trigger] g1[i].1@[a])@ != (#[trigger] g1[i].1@[b])@ by {
        if i < n {
            assert(g1[i] == g0[i]);
        }
    }
    assert(g1[n].1@[0]@ == group);
    assert forall|u: Seq<char>, g: Seq<char>|
        !(u == user && g == group) implies (group_pending(g1, u, g) == group_pending(g0, u, g)) by {
        if group_pending(g0, u, g) {
            let (i, j) = choose|i: int, j: int| 0 <= i < g0.len() && (#[trigger] g0[i]).0@ == u && 0 <= j < g0[i].1@.len() && (#[trigger] g0[i].1@[j])@ == g;
            assert(g1[i] == g0[i]);
            assert(g1[i].1@[j]@ == g);
        }
        if group_pending(g1, u, g) {
            let (i, j) = choose|i: int, j: int| 0 <= i < g1.len() && (#[trigger] g1[i]).0@ == u && 0 <= j < g1[i].1@.len() && (#[trigger] g1[i].1@[j])@ == g;
            if i < n {
                assert(g1[i] == g0[i]);
                assert(g0[i].1@[j]@ == g);
            } else {
                assert(j == 0);
            }
        }
    }
}

/// Mark group `group_id` of `user_id` dirty (once, however often it is marked).
pub fn mark_group(s: &mut Sync, user_id: &str, group_id: &str)
    requires
        sync_wf(*old(s)),
    ensures
        sync_wf(*final(s)),
        final(s).mls == old(s).mls,
        final(s).started == old(s).started,
        group_pending(final(s).groups@, user_id@, group_id@),
        forall|u: Seq<char>, g: Seq<char>|
            !(u == user_id@ && g == group_id@) ==> (group_pending(final(s).groups@, u, g)
                == group_pending(old(s).groups@, u, g)),
{
    let ghost g0 = s.groups@;
    let mut k: usize = 0;
    while k < s.groups.len()
        invariant
            s.groups@ == g0,
            g0 == old(s).groups@,
            sync_wf(*old(s)),
            groups_unique(g0),
            s.mls == old(s).mls,
            s.started == old(s).started,
            k <= g0.len(),
            forall|j: int| 0 <= j < k ==> (#[trigger] g0[j]).0@ != user_id@,
        decreases g0.len() - k,
    {
        if str_eq(s.groups[k].0.as_str(), user_id) {
            let (name, mut list) = s.groups.remove(k);
            let ghost l0 = list@;
            let mut found = false;
            let mut m: usize = 0;
            while m < list.len() && !found
                invariant
                    list@ == l0,
                    m <= l0.len(),
                    found ==> m < l0.len() && l0[m as int]@ == group_id@,
                    forall|j: int| 0 <= j < m ==> (#[trigger] l0[j])@ != group_id@,
                decreases (l0.len() - m) * 2 + (if found { 0int } else { 1int }),
            {
                if str_eq(list[m].as_str(), group_id) {
                    found = true;
                } else {
                    m = m + 1;
                }
            }
            if !found {
                list.push(group_id.to_owned());
            }
            s.groups.insert(k, (name, list));
            proof {
                let g1 = s.groups@;
                let l1 = g1[k as int].1@;
                assert(g1 =~= g0.update(k as int, g1[k as int]));
                assert(g1[k as int].0 == g0[k as int].0);
                assert(l0 == g0[k as int].1@);
                if found {
                    assert(l1 == l0);
                    assert(l1[m as int]@ == group_id@);
                } else {
                    assert(l1.len() == l0.len() + 1);
                    assert(forall|j: int| 0 <= j < l0.len() ==> l1[j] == l0[j]);
                    assert(l1[l0.len() as int]@ == group_id@);
                    assert forall|a: int, b: int| 0 <= a < b < l1.len() implies (#[trigger] l1[a])@ != (#[trigger] l1[b])@ by {
                        if b < l0.len() {
                            assert(l1[a] == l0[a] && l1[b] == l0[b]);
                        } else {
                            assert(l1[a] == l0[a]);
                        }
                    }
                    assert forall|h: Seq<char>| h != group_id@ implies (#[trigger] holds_group(l1, h) == holds_group(l0, h)) by {
                        if exists|j: int| 0 <= j < l1.len() && (#[trigger] l1[j])@ == h {
                            let j = choose|j: int| 0 <= j < l1.len() && (#[trigger] l1[j])@ == h;
                            assert(j < l0.len());
                            assert(l0[j] == l1[j]);
                        }
                        if exists|j: int| 0 <= j < l0.len() && (#[trigger] l0[j])@ == h {
                            let j = choose|j: int| 0 <= j < l0.len() && (#[trigger] l0[j])@ == h;
                            assert(l1[j] == l0[j]);
                        }
                    }
                }
                assert(g1[k as int].0@ == user_id@);
                lemma_group_update(g0, g1, k as int, user_id@, group_id@);
            }
            return;
        }
        k = k + 1;
    }
    let mut list: Vec<String> = Vec::new();
    list.push(group_id.to_owned());
    s.groups.push((user_id.to_owned(), list));
    proof {
        lemma_group_push(g0, s.groups@, user_id@, group_id@);
    }
}

/// Start the flusher once: true the first time, false after.
pub fn start_flusher(s: &mut Sync) -> (first: bool)
    ensures
        first == !old(s).started,
        final(s).started,
        final(s).mls == old(s).mls,
        final(s).groups == old(s).groups,
{
    if s.started {
        return false;
    }
    s.started = true;
    true
}

/// Take everything marked, leaving nothing pending.
pub fn take_dirty(s: &mut Sync) -> (r: (Vec<(String, Vec<u8>)>, Vec<(String, Vec<String>)>))
    ensures
        r.0@ == old(s).mls@,
        r.1@ == old(s).groups@,
        final(s).mls@.len() == 0,
        final(s).groups@.len() == 0,
        final(s).started == old(s).started,
{
    let mut mls: Vec<(String, Vec<u8>)> = Vec::new();
    let mut groups: Vec<(String, Vec<String>)> = Vec::new();
    std::mem::swap(&mut mls, &mut s.mls);
    std::mem::swap(&mut groups, &mut s.groups);
    (mls, groups)
}

} // verus!

//! The accounts created on this device (shown on the login screen) and the
//! contacts this user has blocked.

use vstd::prelude::*;
use crate::text::str_eq;

verus! {

/// A stored local account.
pub struct StoredAccount {
    pub username: String,
    /// True for the first account created on this device.
    pub main: bool,
    pub created_at_ms: i64,
    /// Cached avatar (a data URL) for the login picker.
    pub avatar: String,
}

/// An account as shown on the login screen.
pub struct AccountPill {
    pub username: String,
    pub is_main: bool,
    pub avatar: String,
}

/// Only the first account is the main account.
pub open spec fn main_is_first(accounts: Seq<StoredAccount>) -> bool {
    forall|i: int| 0 <= i < accounts.len() ==> ((#[trigger] accounts[i]).main <==> i == 0)
}

/// Whether an account named `name` is recorded.
pub open spec fn has_account(accounts: Seq<StoredAccount>, name: Seq<char>) -> bool {
    exists|i: int| 0 <= i < accounts.len() && (#[trigger] accounts[i]).username@ == name
}

fn find_account(accounts: &[StoredAccount], name: &str) -> (r: Option<usize>)
    ensures
        match r {
            Some(k) => k < accounts@.len() && accounts@[k as int].username@ == name@ && forall|j: int|
                0 <= j < k ==> (#[trigger] accounts@[j]).username@ != name@,
            None => !has_account(accounts@, name@),
        },
{
    let mut k: usize = 0;
    while k < accounts.len()
        invariant
            k <= accounts@.len(),
            forall|j: int| 0 <= j < k ==> (#[trigger] accounts@[j]).username@ != name@,
        decreases accounts@.len() - k,
    {
        if str_eq(accounts[k].username.as_str(), name) {
            return Some(k);
        }
        k = k + 1;
    }
    None
}

/// Remember an account created on this device: the first becomes the main
/// account, later ones are sub-accounts; no change if already known.
pub fn record_account(accounts: &mut Vec<StoredAccount>, username: &str, created_at_ms: i64) -> (added: bool)
    ensures
        added == !has_account(old(accounts)@, username@),
        has_account(final(accounts)@, username@),
        main_is_first(old(accounts)@) ==> main_is_first(final(accounts)@),
        !added ==> final(accounts)@ == old(accounts)@,
        added ==> {
            let a = final(accounts)@.last();
            &&& final(accounts)@.len() == old(accounts)@.len() + 1
            &&& final(accounts)@.drop_last() == old(accounts)@
            &&& a.username@ == username@
            &&& a.main == (old(accounts)@.len() == 0)
            &&& a.created_at_ms == created_at_ms
            &&& a.avatar@ == Seq::<char>::empty()
        },
{
    if find_account(accounts.as_slice(), username).is_some() {
        return false;
    }
    let main = accounts.len() == 0;
    accounts.push(StoredAccount { username: username.to_owned(), main, created_at_ms, avatar: String::new() });
    assert(accounts@.drop_last() =~= old(accounts)@);
    assert(accounts@[old(accounts)@.len() as int].username@ == username@);
    proof {
        if main_is_first(old(accounts)@) {
            assert forall|i: int| 0 <= i < accounts@.len() implies ((#[trigger] accounts@[i]).main <==> i == 0) by {
                if i < old(accounts)@.len() {
                    assert(accounts@[i] == old(accounts)@[i]);
                }
            }
        }
    }
    true
}

/// Cache an account's avatar; says whether anything changed (an unknown
/// account, or the same avatar, changes nothing).
pub fn set_avatar(accounts: &mut Vec<StoredAccount>, username: &str, avatar: String) -> (changed: bool)
    ensures
        final(accounts)@.len() == old(accounts)@.len(),
        main_is_first(old(accounts)@) ==> main_is_first(final(accounts)@),
        !has_account(old(accounts)@, username@) ==> !changed && final(accounts)@ == old(accounts)@,
        has_account(old(accounts)@, username@) ==> exists|k: int| {
            &&& 0 <= k < old(accounts)@.len()
            &&& (#[trigger] old(accounts)@[k]).username@ == username@
            &&& forall|j: int| 0 <= j < k ==> (#[trigger] old(accounts)@[j]).username@ != username@
            &&& changed == (old(accounts)@[k].avatar@ != avatar@)
            &&& (changed ==> final(accounts)@ == old(accounts)@.update(k, StoredAccount {
                avatar,
                ..old(accounts)@[k]
            }))
            &&& (!changed ==> final(accounts)@ == old(accounts)@)
        },
{
    let k = match find_account(accounts.as_slice(), username) {
        Some(k) => k,
        None => return false,
    };
    if str_eq(accounts[k].avatar.as_str(), avatar.as_str()) {
        return false;
    }
    let mut a = accounts.remove(k);
    a.avatar = avatar;
    accounts.insert(k, a);
    assert(accounts@ =~= old(accounts)@.update(k as int, accounts@[k as int]));
    true
}

/// The login-screen pills, oldest account (the main one) first.
pub fn account_pills(accounts: &[StoredAccount]) -> (out: Vec<AccountPill>)
    ensures
        out@.len() == accounts@.len(),
        forall|i: int| 0 <= i < out@.len() ==> {
            &&& (#[trigger] out@[i]).username == accounts@[i].username
            &&& out@[i].is_main == accounts@[i].main
            &&& out@[i].avatar == accounts@[i].avatar
        },
{
    let mut out: Vec<AccountPill> = Vec::new();
    let mut k: usize = 0;
    while k < accounts.len()
        invariant
            k <= accounts@.len(),
            out@.len() == k,
            forall|i: int| 0 <= i < k ==> {
                &&& (#[trigger] out@[i]).username == accounts@[i].username
                &&& out@[i].is_main == accounts@[i].main
                &&& out@[i].avatar == accounts@[i].avatar
            },
        decreases accounts@.len() - k,
    {
        let a = &accounts[k];
        out.push(AccountPill { username: a.username.clone(), is_main: a.main, avatar: a.avatar.clone() });
        k = k + 1;
    }
    out
}

/// A stored block.
pub struct StoredBlock {
    /// Hex of the blocked contact-identity public key.
    pub id: String,
    pub name: String,
    pub blocked_at_ms: i64,
}

/// A block as shown in the UI.
pub struct BlockDto {
    pub id: String,
    pub name: String,
}

/// Whether contact `id` is blocked.
pub open spec fn is_blocked(blocks: Seq<StoredBlock>, id: Seq<char>) -> bool {
    exists|i: int| 0 <= i < blocks.len() && (#[trigger] blocks[i]).id@ == id
}

/// Block a contact by id; no change if already blocked.
pub fn block_contact(blocks: &mut Vec<StoredBlock>, id: String, name: String, blocked_at_ms: i64) -> (added: bool)
    ensures
        added == !is_blocked(old(blocks)@, id@),
        !added ==> final(blocks)@ == old(blocks)@,
        added ==> final(blocks)@ == old(blocks)@.push(StoredBlock { id, name, blocked_at_ms }),
        is_blocked(final(blocks)@, id@),
{
    let mut k: usize = 0;
    while k < blocks.len()
        invariant
            k <= blocks@.len(),
            blocks@ == old(blocks)@,
            forall|j: int| 0 <= j < k ==> (#[trigger] blocks@[j]).id@ != id@,
        decreases blocks@.len() - k,
    {
        if str_eq(blocks[k].id.as_str(), id.as_str()) {
            return false;
        }
        k = k + 1;
    }
    let ghost b = StoredBlock { id, name, blocked_at_ms };
    blocks.push(StoredBlock { id, name, blocked_at_ms });
    assert(blocks@[blocks@.len() - 1] == b);
    true
}

/// The blocks without those for `id`, in order.
pub open spec fn without_block(s: Seq<StoredBlock>, id: Seq<char>) -> Seq<StoredBlock>
    decreases s.len(),
{
    if s.len() == 0 {
        Seq::empty()
    } else if s.last().id@ == id {
        without_block(s.drop_last(), id)
    } else {
        without_block(s.drop_last(), id).push(s.last())
    }
}

proof fn lemma_without_block(s: Seq<StoredBlock>, id: Seq<char>)
    ensures
        !is_blocked(without_block(s, id), id),
    decreases s.len(),
{
    if s.len() > 0 {
        lemma_without_block(s.drop_last(), id);
        let w = without_block(s.drop_last(), id);
        if s.last().id@ != id {
            assert forall|i: int| 0 <= i < w.push(s.last()).len() implies (#[trigger] w.push(s.last())[i]).id@ != id by {
                if i < w.len() {
                    assert(w.push(s.last())[i] == w[i]);
                }
            }
        }
    }
}

/// Unblock a contact by id: afterwards it is not blocked.
pub fn unblock_contact(blocks: &mut Vec<StoredBlock>, id: &str)
    ensures
        final(blocks)@ == without_block(old(blocks)@, id@),
        !is_blocked(final(blocks)@, id@),
{
    let mut rest: Vec<StoredBlock> = Vec::new();
    std::mem::swap(&mut rest, blocks);
    let ghost orig = rest@;
    let ghost mut k: int = 0;
    let mut kept: Vec<StoredBlock> = Vec::new();
    assert(orig.skip(0) =~= orig);
    assert(orig.take(0) =~= Seq::<StoredBlock>::empty());
    while rest.len() > 0
        invariant
            0 <= k <= orig.len(),
            rest@ == orig.skip(k),
            kept@ == without_block(orig.take(k), id@),
        decreases rest@.len(),
    {
        let b = rest.remove(0);
        proof {
            assert(orig.take(k + 1).drop_last() =~= orig.take(k));
            assert(orig.take(k + 1).last() == b);
        }
        if !str_eq(b.id.as_str(), id) {
            kept.push(b);
        }
        proof {
            k = k + 1;
        }
        assert(rest@ =~= orig.skip(k));
    }
    assert(orig.take(k) =~= orig);
    proof {
        lemma_without_block(orig, id@);
    }
    *blocks = kept;
}

/// The blocked contacts as shown in the UI.
pub fn block_list(blocks: &[StoredBlock]) -> (out: Vec<BlockDto>)
    ensures
        out@.len() == blocks@.len(),
        forall|i: int| 0 <= i < out@.len() ==> (#[trigger] out@[i]).id == blocks@[i].id && out@[i].name == blocks@[i].name,
{
    let mut out: Vec<BlockDto> = Vec::new();
    let mut k: usize = 0;
    while k < blocks.len()
        invariant
            k <= blocks@.len(),
            out@.len() == k,
            forall|i: int| 0 <= i < k ==> (#[trigger] out@[i]).id == blocks@[i].id && out@[i].name == blocks@[i].name,
        decreases blocks@.len() - k,
    {
        out.push(BlockDto { id: blocks[k].id.clone(), name: blocks[k].name.clone() });
        k = k + 1;
    }
    out
}

} // verus!

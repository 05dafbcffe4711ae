//! Laws of the store, stated over the spec-level step functions and proved
//! once and for all. Every vault and router method keeps well-formedness,
//! which includes `vault_inv`; these lemmas spell out what that invariant
//! and the step functions guarantee.

use vstd::prelude::*;

use crate::DEFAULT_MAX_MUTATIONS;
use crate::account::charge_account;
use crate::hashing::hash_of;
use crate::mdata::{MdV, action_error, apply_actions, first_error, mutate_result};
use crate::types::{Authority, ClientError, EntryActionV, UserV, ValueV, PermissionSet};
use crate::vault::{VaultV, charge_result, step_del_user_permissions, step_get_idata,
    step_get_mdata_version, step_get_value, step_mutate_entries, step_put_idata,
    step_set_user_permissions, vault_inv};

verus! {

/// Quota conservation: in a vault that satisfies the invariant, every
/// account's spent and remaining mutations sum to the configured maximum.
pub proof fn lemma_account_quota_conserved(v: VaultV, n: Seq<u8>)
    requires
        vault_inv(v),
        v.accounts.contains_key(n),
    ensures
        v.accounts[n].mutations_done + v.accounts[n].mutations_available
            == DEFAULT_MAX_MUTATIONS,
{
}

/// Content addressing: every immutable object is stored under the digest of
/// its content.
pub proof fn lemma_idata_content_addressed(v: VaultV, n: Seq<u8>)
    requires
        vault_inv(v),
        v.idata.contains_key(n),
    ensures
        n == hash_of(v.idata[n]),
{
}

/// Ownership: every stored mutable object has at least one owner.
pub proof fn lemma_mdata_has_owner(v: VaultV, k: (Seq<u8>, u64))
    requires
        vault_inv(v),
        v.mdata.contains_key(k),
    ensures
        exists|o: Seq<u8>| v.mdata[k].owners.contains(o),
{
}

/// When a batch hits no error, neither does any one of its actions.
proof fn lemma_first_error_none_covers(
    m: MdV,
    requester: Seq<u8>,
    actions: Seq<(Seq<u8>, EntryActionV)>,
    i: int,
)
    requires
        first_error(m, requester, actions) is None,
        0 <= i < actions.len(),
    ensures
        action_error(m, requester, actions[i].0, actions[i].1) is None,
    decreases i,
{
    if i > 0 {
        assert(actions.drop_first()[i - 1] == actions[i]);
        lemma_first_error_none_covers(m, requester, actions.drop_first(), i - 1);
    }
}

/// Version-successor discipline: a batch succeeds only when every single
/// action passes the permission check and asserts exactly the version the
/// stored entry requires.
pub proof fn lemma_mutation_needs_valid_actions(
    m: MdV,
    requester: Seq<u8>,
    actions: Seq<(Seq<u8>, EntryActionV)>,
    i: int,
)
    requires
        mutate_result(m, requester, actions) is Ok,
        0 <= i < actions.len(),
    ensures
        action_error(m, requester, actions[i].0, actions[i].1) is None,
{
    lemma_first_error_none_covers(m, requester, actions, i);
}

/// Deleting an entry leaves a tombstone: empty content at exactly the
/// version the delete asserted.
pub proof fn lemma_delete_leaves_tombstone(m: MdV, requester: Seq<u8>, k: Seq<u8>, ver: u64)
    requires
        mutate_result(m, requester, seq![(k, EntryActionV::Del(ver))]) is Ok,
    ensures
        ({
            let m2 = mutate_result(m, requester, seq![(k, EntryActionV::Del(ver))])->Ok_0;
            &&& m2.entries.contains_key(k)
            &&& m2.entries[k].is_tombstone()
            &&& m2.entries[k].entry_version == ver
        }),
{
    let batch = seq![(k, EntryActionV::Del(ver))];
    assert(batch.drop_last() =~= Seq::<(Seq<u8>, EntryActionV)>::empty());
    assert(batch.last() == (k, EntryActionV::Del(ver)));
    assert(apply_actions(m.entries, batch.drop_last()) == m.entries);
    assert(apply_actions(m.entries, batch) == m.entries.insert(
        k,
        ValueV { content: Seq::empty(), entry_version: ver },
    ));
}

/// An entry mutation, successful or not, never changes any object's
/// version: reading the version afterwards returns what it returned before.
pub proof fn lemma_entry_mutation_preserves_version(
    v: VaultV,
    dst: Authority,
    rd: Authority,
    name: Seq<u8>,
    tag: u64,
    actions: Seq<(Seq<u8>, EntryActionV)>,
    requester: Seq<u8>,
)
    ensures
        step_get_mdata_version(step_mutate_entries(v, dst, name, tag, actions, requester).0, rd,
            name, tag) == step_get_mdata_version(v, rd, name, tag),
{
}

/// Granting permissions bumps the object's version to exactly the asserted
/// successor, and reading it afterwards returns that successor.
pub proof fn lemma_permission_change_bumps_version(
    v: VaultV,
    dst: Authority,
    rd: Authority,
    name: Seq<u8>,
    tag: u64,
    user: UserV,
    permissions: PermissionSet,
    version: u64,
    requester: Seq<u8>,
)
    requires
        step_set_user_permissions(v, dst, name, tag, user, permissions, version, requester).1
            is Ok,
        rd.is_nae_manager(),
    ensures
        version == v.mdata[(name, tag)].version + 1,
        step_get_mdata_version(step_set_user_permissions(v, dst, name, tag, user, permissions,
            version, requester).0, rd, name, tag) == Ok::<u64, ClientError>(version),
{
}

/// Revoking permissions bumps the object's version in the same way.
pub proof fn lemma_permission_removal_bumps_version(
    v: VaultV,
    dst: Authority,
    rd: Authority,
    name: Seq<u8>,
    tag: u64,
    user: UserV,
    version: u64,
    requester: Seq<u8>,
)
    requires
        step_del_user_permissions(v, dst, name, tag, user, version, requester).1 is Ok,
        rd.is_nae_manager(),
    ensures
        version == v.mdata[(name, tag)].version + 1,
        step_get_mdata_version(step_del_user_permissions(v, dst, name, tag, user, version,
            requester).0, rd, name, tag) == Ok::<u64, ClientError>(version),
{
}

/// Deduplication with quota: storing the same content twice succeeds both
/// times, stores nothing new the second time, charges one mutation each, and
/// a get by the content's name returns the content. A different stored blob
/// under the digest of `content` (a digest collision) is ruled out by the
/// premise.
pub proof fn lemma_idata_dedup(v: VaultV, dst: Authority, rd: Authority, content: Seq<u8>)
    requires
        vault_inv(v),
        dst.is_client_manager(),
        rd.is_nae_manager(),
        v.accounts.contains_key(dst.spec_name()),
        v.accounts[dst.spec_name()].mutations_available >= 2,
        v.idata.contains_key(hash_of(content)) ==> v.idata[hash_of(content)] == content,
    ensures
        ({
            let (v1, r1) = step_put_idata(v, dst, content);
            let (v2, r2) = step_put_idata(v1, dst, content);
            &&& r1 is Ok
            &&& r2 is Ok
            &&& v2.idata == v1.idata
            &&& step_get_idata(v2, rd, hash_of(content)) == Ok::<Seq<u8>, ClientError>(content)
            &&& v2.accounts[dst.spec_name()].mutations_done
                == v.accounts[dst.spec_name()].mutations_done + 2
            &&& v2.accounts[dst.spec_name()].mutations_available
                == v.accounts[dst.spec_name()].mutations_available - 2
        }),
{
    let n = dst.spec_name();
    assert(v.accounts[n].mutations_done + v.accounts[n].mutations_available
        == DEFAULT_MAX_MUTATIONS);
    let (v1, r1) = step_put_idata(v, dst, content);
    assert(charge_result(v.accounts, n) == Ok::<Map<Seq<u8>, crate::account::AccountV>,
        ClientError>(v.accounts.insert(n, charge_account(v.accounts[n])->Ok_0)));
    assert(v1.idata.contains_key(hash_of(content)) && v1.idata[hash_of(content)] == content);
    let (v2, r2) = step_put_idata(v1, dst, content);
    assert(r2 is Ok);
    assert(v2.idata == v1.idata);
}

/// Inserting a fresh key and reading it back returns exactly the inserted
/// value.
pub proof fn lemma_insert_then_get(
    v: VaultV,
    dst: Authority,
    rd: Authority,
    name: Seq<u8>,
    tag: u64,
    k: Seq<u8>,
    v0: ValueV,
    requester: Seq<u8>,
)
    requires
        step_mutate_entries(v, dst, name, tag, seq![(k, EntryActionV::Ins(v0))], requester).1
            is Ok,
        rd.is_nae_manager(),
    ensures
        step_get_value(step_mutate_entries(v, dst, name, tag, seq![(k, EntryActionV::Ins(v0))],
            requester).0, rd, name, tag, k) == Ok::<ValueV, ClientError>(v0),
{
    let batch = seq![(k, EntryActionV::Ins(v0))];
    assert(batch.drop_last() =~= Seq::<(Seq<u8>, EntryActionV)>::empty());
    assert(batch.last() == (k, EntryActionV::Ins(v0)));
    let a2 = charge_result(v.accounts, dst.spec_name())->Ok_0;
    let v2 = VaultV { accounts: a2, ..v };
    assert(apply_actions(v2.mdata[(name, tag)].entries, batch.drop_last()) == v2.mdata[(name,
        tag)].entries);
    assert(apply_actions(v2.mdata[(name, tag)].entries, batch) == v2.mdata[(name,
        tag)].entries.insert(k, v0));
}

/// All-or-nothing batches: a batch that fails, for whatever reason, changes
/// no stored object.
pub proof fn lemma_failed_batch_changes_nothing(
    v: VaultV,
    dst: Authority,
    name: Seq<u8>,
    tag: u64,
    actions: Seq<(Seq<u8>, EntryActionV)>,
    requester: Seq<u8>,
)
    requires
        step_mutate_entries(v, dst, name, tag, actions, requester).1 is Err,
    ensures
        step_mutate_entries(v, dst, name, tag, actions, requester).0.mdata == v.mdata,
{
}

} // verus!

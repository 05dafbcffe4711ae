//! The vault: ground truth for accounts, immutable blobs and mutable
//! objects. It validates the destination authority of every request, charges
//! mutations against the target account, and runs the store operation. Each
//! operation's outcome is a spec-level step function of the vault's view;
//! the executable methods implement those steps exactly.

use vstd::prelude::*;

use crate::DEFAULT_MAX_MUTATIONS;
use crate::TYPE_TAG_SESSION_PACKET;
use crate::account::{Account, AccountV, account_inv, charge_account};
use crate::hashing::hash_of;
use crate::idata::ImmutableData;
use crate::kv::{distinct_keys, kvs_map, lemma_kvs_map_domain, lemma_kvs_map_index,
    lemma_kvs_map_push, lemma_kvs_map_update};
use crate::mdata::{Entry, MdV, MutableData, action_pairs_of, del_perms_result, entry_pairs_of,
    mutate_result, perm_pairs_of, set_perms_result};
use crate::types::EntryAction;
use crate::types::EntryActionV;
use crate::types::{AccountInfo, Authority, ClientError, PermissionSet, PublicKey, User, UserV,
    Value, ValueV, XorName, xor_name_eq};

verus! {

/// Spec-level image of the whole vault.
#[verifier::ext_equal]
pub ghost struct VaultV {
    pub accounts: Map<Seq<u8>, AccountV>,
    pub idata: Map<Seq<u8>, Seq<u8>>,
    pub mdata: Map<(Seq<u8>, u64), MdV>,
}

/// The vault a fresh process starts with.
pub open spec fn empty_vault() -> VaultV {
    VaultV { accounts: Map::empty(), idata: Map::empty(), mdata: Map::empty() }
}

/// State invariant, kept by every request: every account conserves its
/// quota; every immutable object sits under the digest of its content; every
/// mutable object sits under its own name and tag and has at least one
/// owner.
pub open spec fn vault_inv(v: VaultV) -> bool {
    &&& forall|n: Seq<u8>| #[trigger] v.accounts.contains_key(n) ==> account_inv(v.accounts[n])
    &&& forall|n: Seq<u8>| #[trigger] v.idata.contains_key(n) ==> n == hash_of(v.idata[n])
    &&& forall|k: (Seq<u8>, u64)| #[trigger] v.mdata.contains_key(k) ==> v.mdata[k].name == k.0
        && v.mdata[k].tag == k.1 && (exists|o: Seq<u8>| v.mdata[k].owners.contains(o))
}

/// Outcome of charging one mutation to the account named `name`.
pub open spec fn charge_result(accounts: Map<Seq<u8>, AccountV>, name: Seq<u8>) -> Result<
    Map<Seq<u8>, AccountV>,
    ClientError,
> {
    if !accounts.contains_key(name) {
        Err(ClientError::NoSuchAccount)
    } else {
        match charge_account(accounts[name]) {
            Err(e) => Err(e),
            Ok(a2) => Ok(accounts.insert(name, a2)),
        }
    }
}

/// Outcome of `get_account_info`: the counters of the account the
/// `ClientManager` authority names.
pub open spec fn step_get_account_info(v: VaultV, dst: Authority) -> Result<
    AccountInfo,
    ClientError,
> {
    if !dst.is_client_manager() {
        Err(ClientError::InvalidOperation)
    } else if !v.accounts.contains_key(dst.spec_name()) {
        Err(ClientError::NoSuchAccount)
    } else {
        Ok(AccountInfo {
            mutations_done: v.accounts[dst.spec_name()].mutations_done,
            mutations_available: v.accounts[dst.spec_name()].mutations_available,
        })
    }
}

/// Outcome of `put_idata`: after the charge, the blob is stored under the
/// digest of its content; a second put of stored content changes no data but
/// is charged all the same.
pub open spec fn step_put_idata(v: VaultV, dst: Authority, content: Seq<u8>) -> (VaultV, Result<
    (),
    ClientError,
>) {
    if !dst.is_client_manager() {
        (v, Err(ClientError::InvalidOperation))
    } else {
        match charge_result(v.accounts, dst.spec_name()) {
            Err(e) => (v, Err(e)),
            Ok(accounts2) => {
                let v2 = VaultV { accounts: accounts2, ..v };
                if v2.idata.contains_key(hash_of(content)) {
                    (v2, Ok(()))
                } else {
                    (VaultV { idata: v2.idata.insert(hash_of(content), content), ..v2 }, Ok(()))
                }
            },
        }
    }
}

/// Outcome of `get_idata`: the content stored under `name`.
pub open spec fn step_get_idata(v: VaultV, dst: Authority, name: Seq<u8>) -> Result<
    Seq<u8>,
    ClientError,
> {
    if !dst.is_nae_manager() {
        Err(ClientError::InvalidOperation)
    } else if !v.idata.contains_key(name) {
        Err(ClientError::NoSuchData)
    } else {
        Ok(v.idata[name])
    }
}

/// Storing a fresh mutable object, after authority and charge: the
/// requester must be an owner and the key must be unused.
pub open spec fn store_new_mdata(v: VaultV, data: MdV, requester: Seq<u8>) -> (VaultV, Result<
    (),
    ClientError,
>) {
    if !data.owners.contains(requester) {
        (v, Err(ClientError::InvalidOwners))
    } else if v.mdata.contains_key((data.name, data.tag)) {
        (v, Err(ClientError::DataExists))
    } else {
        (VaultV { mdata: v.mdata.insert((data.name, data.tag), data), ..v }, Ok(()))
    }
}

/// Outcome of `put_mdata`. A payload with the session-packet tag whose name
/// equals the target `ClientManager` name creates the account instead of
/// charging it, when no account exists yet; any other put charges first.
pub open spec fn step_put_mdata(v: VaultV, dst: Authority, data: MdV, requester: Seq<u8>) -> (
    VaultV,
    Result<(), ClientError>,
) {
    if !dst.is_client_manager() {
        (v, Err(ClientError::InvalidOperation))
    } else if data.tag == TYPE_TAG_SESSION_PACKET && data.name == dst.spec_name()
        && !v.accounts.contains_key(dst.spec_name()) {
        let fresh = AccountV {
            owner_key: requester,
            mutations_done: 0,
            mutations_available: DEFAULT_MAX_MUTATIONS,
        };
        store_new_mdata(
            VaultV { accounts: v.accounts.insert(dst.spec_name(), fresh), ..v },
            data,
            requester,
        )
    } else {
        match charge_result(v.accounts, dst.spec_name()) {
            Err(e) => (v, Err(e)),
            Ok(a2) => store_new_mdata(VaultV { accounts: a2, ..v }, data, requester),
        }
    }
}

/// Outcome of `get_mdata_version`.
pub open spec fn step_get_mdata_version(v: VaultV, dst: Authority, name: Seq<u8>, tag: u64)
    -> Result<u64, ClientError> {
    if !dst.is_nae_manager() {
        Err(ClientError::InvalidOperation)
    } else if !v.mdata.contains_key((name, tag)) {
        Err(ClientError::NoSuchData)
    } else {
        Ok(v.mdata[(name, tag)].version)
    }
}

/// Outcome of the entry listings: the object's entry map, tombstones
/// included.
pub open spec fn step_list_entries(v: VaultV, dst: Authority, name: Seq<u8>, tag: u64) -> Result<
    Map<Seq<u8>, ValueV>,
    ClientError,
> {
    if !dst.is_nae_manager() {
        Err(ClientError::InvalidOperation)
    } else if !v.mdata.contains_key((name, tag)) {
        Err(ClientError::NoSuchData)
    } else {
        Ok(v.mdata[(name, tag)].entries)
    }
}

/// Outcome of `get_mdata_value`.
pub open spec fn step_get_value(v: VaultV, dst: Authority, name: Seq<u8>, tag: u64, key: Seq<u8>)
    -> Result<ValueV, ClientError> {
    if !dst.is_nae_manager() {
        Err(ClientError::InvalidOperation)
    } else if !v.mdata.contains_key((name, tag)) {
        Err(ClientError::NoSuchData)
    } else if !v.mdata[(name, tag)].entries.contains_key(key) {
        Err(ClientError::NoSuchEntry)
    } else {
        Ok(v.mdata[(name, tag)].entries[key])
    }
}

/// Outcome of `list_mdata_permissions`: the object's permission map.
pub open spec fn step_list_permissions(v: VaultV, dst: Authority, name: Seq<u8>, tag: u64)
    -> Result<Map<UserV, PermissionSet>, ClientError> {
    if !dst.is_nae_manager() {
        Err(ClientError::InvalidOperation)
    } else if !v.mdata.contains_key((name, tag)) {
        Err(ClientError::NoSuchData)
    } else {
        Ok(v.mdata[(name, tag)].permissions)
    }
}

/// Outcome of `list_mdata_user_permissions`: the record for exactly `user`.
pub open spec fn step_list_user_permissions(
    v: VaultV,
    dst: Authority,
    name: Seq<u8>,
    tag: u64,
    user: UserV,
) -> Result<PermissionSet, ClientError> {
    if !dst.is_nae_manager() {
        Err(ClientError::InvalidOperation)
    } else if !v.mdata.contains_key((name, tag)) {
        Err(ClientError::NoSuchData)
    } else if !v.mdata[(name, tag)].permissions.contains_key(user) {
        Err(ClientError::NoSuchKey)
    } else {
        Ok(v.mdata[(name, tag)].permissions[user])
    }
}

/// Outcome of `mutate_mdata_entries`: charge, then the object's atomic
/// batch mutation. A failure after the charge keeps the charge.
pub open spec fn step_mutate_entries(
    v: VaultV,
    dst: Authority,
    name: Seq<u8>,
    tag: u64,
    actions: Seq<(Seq<u8>, EntryActionV)>,
    requester: Seq<u8>,
) -> (VaultV, Result<(), ClientError>) {
    if !dst.is_client_manager() {
        (v, Err(ClientError::InvalidOperation))
    } else {
        match charge_result(v.accounts, dst.spec_name()) {
            Err(e) => (v, Err(e)),
            Ok(a2) => {
                let v2 = VaultV { accounts: a2, ..v };
                if !v2.mdata.contains_key((name, tag)) {
                    (v2, Err(ClientError::NoSuchData))
                } else {
                    match mutate_result(v2.mdata[(name, tag)], requester, actions) {
                        Err(e) => (v2, Err(e)),
                        Ok(m2) => (
                            VaultV { mdata: v2.mdata.insert((name, tag), m2), ..v2 },
                            Ok(()),
                        ),
                    }
                }
            },
        }
    }
}

/// Outcome of `set_mdata_user_permissions`.
pub open spec fn step_set_user_permissions(
    v: VaultV,
    dst: Authority,
    name: Seq<u8>,
    tag: u64,
    user: UserV,
    permissions: PermissionSet,
    version: u64,
    requester: Seq<u8>,
) -> (VaultV, Result<(), ClientError>) {
    if !dst.is_client_manager() {
        (v, Err(ClientError::InvalidOperation))
    } else {
        match charge_result(v.accounts, dst.spec_name()) {
            Err(e) => (v, Err(e)),
            Ok(a2) => {
                let v2 = VaultV { accounts: a2, ..v };
                if !v2.mdata.contains_key((name, tag)) {
                    (v2, Err(ClientError::NoSuchData))
                } else {
                    match set_perms_result(v2.mdata[(name, tag)], user, permissions, version,
                        requester) {
                        Err(e) => (v2, Err(e)),
                        Ok(m2) => (
                            VaultV { mdata: v2.mdata.insert((name, tag), m2), ..v2 },
                            Ok(()),
                        ),
                    }
                }
            },
        }
    }
}

/// Outcome of `del_mdata_user_permissions`.
pub open spec fn step_del_user_permissions(
    v: VaultV,
    dst: Authority,
    name: Seq<u8>,
    tag: u64,
    user: UserV,
    version: u64,
    requester: Seq<u8>,
) -> (VaultV, Result<(), ClientError>) {
    if !dst.is_client_manager() {
        (v, Err(ClientError::InvalidOperation))
    } else {
        match charge_result(v.accounts, dst.spec_name()) {
            Err(e) => (v, Err(e)),
            Ok(a2) => {
                let v2 = VaultV { accounts: a2, ..v };
                if !v2.mdata.contains_key((name, tag)) {
                    (v2, Err(ClientError::NoSuchData))
                } else {
                    match del_perms_result(v2.mdata[(name, tag)], user, version, requester) {
                        Err(e) => (v2, Err(e)),
                        Ok(m2) => (
                            VaultV { mdata: v2.mdata.insert((name, tag), m2), ..v2 },
                            Ok(()),
                        ),
                    }
                }
            },
        }
    }
}

/// An entry listing is faithful when its pairs carry distinct keys and
/// denote the object's entry map.
pub open spec fn lists_entries_of(es: Seq<Entry>, entries: Map<Seq<u8>, ValueV>) -> bool {
    &&& distinct_keys(entry_pairs_of(es))
    &&& kvs_map(entry_pairs_of(es)) == entries
}

/// A key listing is faithful when it repeats no key and holds exactly the
/// entry map's domain.
pub open spec fn lists_keys_of(keys: Seq<Vec<u8>>, entries: Map<Seq<u8>, ValueV>) -> bool {
    &&& forall|i: int, j: int| 0 <= i < j < keys.len() ==> keys[i]@ != keys[j]@
    &&& forall|i: int| 0 <= i < keys.len() ==> entries.contains_key(#[trigger] keys[i]@)
    &&& forall|k: Seq<u8>| #[trigger] entries.contains_key(k) ==> exists|i: int|
        0 <= i < keys.len() && keys[i]@ == k
}

/// A value listing is faithful when it lists, under some pairing of the
/// entry map, each entry's value once.
pub open spec fn lists_values_of(vals: Seq<Value>, entries: Map<Seq<u8>, ValueV>) -> bool {
    exists|s: Seq<(Seq<u8>, ValueV)>|
        {
            &&& distinct_keys(s)
            &&& #[trigger] kvs_map(s) == entries
            &&& vals.len() == s.len()
            &&& forall|i: int| 0 <= i < s.len() ==> vals[i]@ == s[i].1
        }
}

/// A permission listing is faithful when its pairs carry distinct users and
/// denote the object's permission map.
pub open spec fn lists_permissions_of(
    ps: Seq<(User, PermissionSet)>,
    permissions: Map<UserV, PermissionSet>,
) -> bool {
    &&& distinct_keys(perm_pairs_of(ps))
    &&& kvs_map(perm_pairs_of(ps)) == permissions
}

/// The vault's stores: association vectors read as maps by the view.
pub struct Vault {
    accounts: Vec<(XorName, Account)>,
    idata: Vec<ImmutableData>,
    mdata: Vec<MutableData>,
}

impl View for Vault {
    type V = VaultV;

    closed spec fn view(&self) -> VaultV {
        VaultV {
            accounts: kvs_map(self.accounts_pairs()),
            idata: kvs_map(self.idata_pairs()),
            mdata: kvs_map(self.mdata_pairs()),
        }
    }
}

impl Vault {
    /// The account store as name/account pairs, in store order.
    pub closed spec fn accounts_pairs(self) -> Seq<(Seq<u8>, AccountV)> {
        self.accounts@.map_values(|p: (XorName, Account)| (p.0@, p.1@))
    }

    /// The immutable store as name/content pairs, in store order.
    pub closed spec fn idata_pairs(self) -> Seq<(Seq<u8>, Seq<u8>)> {
        self.idata@.map_values(|d: ImmutableData| (d@.name, d@.content))
    }

    /// The mutable store as key/object pairs, in store order.
    pub closed spec fn mdata_pairs(self) -> Seq<((Seq<u8>, u64), MdV)> {
        self.mdata@.map_values(|m: MutableData| ((m@.name, m@.tag), m@))
    }

    /// The stored mutable objects themselves, in store order.
    pub closed spec fn mdata_elems(self) -> Seq<MutableData> {
        self.mdata@
    }

    /// Well-formedness: each store's keys are distinct and denote the view's
    /// map, each stored mutable object is itself well-formed, and the state
    /// invariant holds.
    pub open spec fn wf(self) -> bool {
        &&& distinct_keys(self.accounts_pairs())
        &&& kvs_map(self.accounts_pairs()) == self@.accounts
        &&& distinct_keys(self.idata_pairs())
        &&& kvs_map(self.idata_pairs()) == self@.idata
        &&& distinct_keys(self.mdata_pairs())
        &&& kvs_map(self.mdata_pairs()) == self@.mdata
        &&& self.mdata_elems().len() == self.mdata_pairs().len()
        &&& forall|i: int| 0 <= i < self.mdata_elems().len()
            ==> (#[trigger] self.mdata_elems()[i]).wf()
        &&& vault_inv(self@)
    }

    /// An empty vault.
    pub fn new() -> (r: Vault)
        ensures
            r.wf(),
            r@ == empty_vault(),
    {
        let v = Vault { accounts: Vec::new(), idata: Vec::new(), mdata: Vec::new() };
        proof {
            assert(v@ =~= empty_vault());
        }
        v
    }

    /// Index of the account named `name`, if any.
    fn find_account(&self, name: &XorName) -> (r: Option<usize>)
        requires
            self.wf(),
        ensures
            match r {
                Some(i) => {
                    &&& i < self.accounts_pairs().len()
                    &&& self.accounts_pairs()[i as int].0 == name@
                    &&& self@.accounts.contains_key(name@)
                    &&& self@.accounts[name@] == self.accounts_pairs()[i as int].1
                },
                None => !self@.accounts.contains_key(name@),
            },
    {
        let mut i: usize = 0;
        while i < self.accounts.len()
            invariant
                self.wf(),
                i <= self.accounts@.len(),
                forall|j: int| 0 <= j < i ==> self.accounts@[j].0@ != name@,
            decreases self.accounts@.len() - i,
        {
            if xor_name_eq(&self.accounts[i].0, name) {
                proof {
                    lemma_kvs_map_index(self.accounts_pairs(), i as int);
                }
                return Some(i);
            }
            i += 1;
        }
        proof {
            lemma_kvs_map_domain(self.accounts_pairs(), name@);
        }
        None
    }

    /// Index of the immutable object named `name`, if any.
    fn find_idata(&self, name: &XorName) -> (r: Option<usize>)
        requires
            self.wf(),
        ensures
            match r {
                Some(i) => {
                    &&& i < self.idata_pairs().len()
                    &&& self.idata_pairs()[i as int].0 == name@
                    &&& self@.idata.contains_key(name@)
                    &&& self@.idata[name@] == self.idata_pairs()[i as int].1
                },
                None => !self@.idata.contains_key(name@),
            },
    {
        let mut i: usize = 0;
        while i < self.idata.len()
            invariant
                self.wf(),
                i <= self.idata@.len(),
                forall|j: int| 0 <= j < i ==> self.idata@[j]@.name != name@,
            decreases self.idata@.len() - i,
        {
            if xor_name_eq(self.idata[i].name(), name) {
                proof {
                    lemma_kvs_map_index(self.idata_pairs(), i as int);
                }
                return Some(i);
            }
            i += 1;
        }
        proof {
            lemma_kvs_map_domain(self.idata_pairs(), name@);
        }
        None
    }

    /// Index of the mutable object keyed by `name` and `tag`, if any.
    fn find_mdata(&self, name: &XorName, tag: u64) -> (r: Option<usize>)
        requires
            self.wf(),
        ensures
            match r {
                Some(i) => {
                    &&& i < self.mdata_pairs().len()
                    &&& self.mdata_pairs()[i as int].0 == (name@, tag)
                    &&& self@.mdata.contains_key((name@, tag))
                    &&& self@.mdata[(name@, tag)] == self.mdata_pairs()[i as int].1
                    &&& self@.mdata[(name@, tag)] == self.mdata_elems()[i as int]@
                },
                None => !self@.mdata.contains_key((name@, tag)),
            },
    {
        let mut i: usize = 0;
        while i < self.mdata.len()
            invariant
                self.wf(),
                i <= self.mdata@.len(),
                forall|j: int| 0 <= j < i ==> !(self.mdata@[j]@.name == name@
                    && self.mdata@[j]@.tag == tag),
            decreases self.mdata@.len() - i,
        {
            if xor_name_eq(self.mdata[i].name(), name) && self.mdata[i].tag() == tag {
                proof {
                    lemma_kvs_map_index(self.mdata_pairs(), i as int);
                }
                return Some(i);
            }
            i += 1;
        }
        proof {
            lemma_kvs_map_domain(self.mdata_pairs(), (name@, tag));
        }
        None
    }

    /// Counters of the account the authority names.
    pub fn get_account_info(&self, dst: Authority) -> (r: Result<AccountInfo, ClientError>)
        requires
            self.wf(),
        ensures
            r == step_get_account_info(self@, dst),
    {
        match dst {
            Authority::ClientManager(name) => {
                match self.find_account(&name) {
                    Some(i) => Ok(self.accounts[i].1.account_info()),
                    None => Err(ClientError::NoSuchAccount),
                }
            },
            Authority::NaeManager(_) => Err(ClientError::InvalidOperation),
        }
    }

    /// Charges one mutation to the account named `name`.
    fn charge(&mut self, name: &XorName) -> (r: Result<(), ClientError>)
        requires
            old(self).wf(),
        ensures
            final(self).wf(),
            match charge_result(old(self)@.accounts, name@) {
                Ok(a2) => r is Ok && final(self)@ == (VaultV { accounts: a2, ..old(self)@ }),
                Err(e) => r == Err::<(), ClientError>(e) && final(self)@ == old(self)@
                    && *final(self) == *old(self),
            },
    {
        match self.find_account(name) {
            None => Err(ClientError::NoSuchAccount),
            Some(i) => {
                if self.accounts[i].1.account_info().mutations_available == 0 {
                    return Err(ClientError::LowBalance);
                }
                proof {
                    lemma_kvs_map_update(
                        old(self).accounts_pairs(),
                        i as int,
                        charge_account(old(self)@.accounts[name@])->Ok_0,
                    );
                }
                let p = &mut self.accounts[i];
                let res = p.1.charge();
                proof {
                    assert(res is Ok);
                    assert(self.accounts_pairs() =~= old(self).accounts_pairs().update(
                        i as int,
                        (name@, charge_account(old(self)@.accounts[name@])->Ok_0),
                    ));
                    assert(self@ =~= (VaultV {
                        accounts: old(self)@.accounts.insert(
                            name@,
                            charge_account(old(self)@.accounts[name@])->Ok_0,
                        ),
                        ..old(self)@
                    }));
                }
                Ok(())
            },
        }
    }

    /// Stores a blob under the digest of its content; storing known content
    /// again changes nothing but still costs one mutation.
    pub fn put_idata(&mut self, dst: Authority, data: ImmutableData) -> (r: Result<
        (),
        ClientError,
    >)
        requires
            old(self).wf(),
            data.wf(),
        ensures
            final(self).wf(),
            final(self)@ == step_put_idata(old(self)@, dst, data@.content).0,
            r == step_put_idata(old(self)@, dst, data@.content).1,
    {
        let name: XorName = match dst {
            Authority::ClientManager(n) => n,
            Authority::NaeManager(_) => {
                return Err(ClientError::InvalidOperation);
            },
        };
        match self.charge(&name) {
            Err(e) => Err(e),
            Ok(()) => {
                match self.find_idata(data.name()) {
                    Some(_) => Ok(()),
                    None => {
                        proof {
                            lemma_kvs_map_domain(self.idata_pairs(), data@.name);
                            lemma_kvs_map_push(self.idata_pairs(), data@.name, data@.content);
                        }
                        let ghost mid = *self;
                        self.idata.push(data);
                        proof {
                            assert(self.idata_pairs() =~= mid.idata_pairs().push((
                                self.idata@.last()@.name,
                                self.idata@.last()@.content,
                            )));
                            assert(distinct_keys(self.idata_pairs())) by {
                                assert(forall|j: int|
                                    0 <= j < mid.idata_pairs().len()
                                        ==> self.idata_pairs()[j] == mid.idata_pairs()[j]);
                            }
                            assert(self@ =~= (VaultV {
                                idata: mid@.idata.insert(self.idata@.last()@.name,
                                    self.idata@.last()@.content),
                                ..mid@
                            }));
                        }
                        Ok(())
                    },
                }
            },
        }
    }

    /// A copy of the blob named `name`.
    pub fn get_idata(&self, dst: Authority, name: &XorName) -> (r: Result<
        ImmutableData,
        ClientError,
    >)
        requires
            self.wf(),
        ensures
            match (r, step_get_idata(self@, dst, name@)) {
                (Ok(d), Ok(content)) => d@.content == content && d@.name == name@,
                (Err(e1), Err(e2)) => e1 == e2,
                _ => false,
            },
    {
        match dst {
            Authority::NaeManager(_) => {},
            Authority::ClientManager(_) => {
                return Err(ClientError::InvalidOperation);
            },
        }
        match self.find_idata(name) {
            Some(i) => Ok(self.idata[i].duplicate()),
            None => Err(ClientError::NoSuchData),
        }
    }

    /// Stores a fresh mutable object after the owner and key checks.
    fn insert_mdata(&mut self, data: MutableData, requester: &PublicKey) -> (r: Result<
        (),
        ClientError,
    >)
        requires
            old(self).wf(),
            data.wf(),
        ensures
            final(self).wf(),
            final(self)@ == store_new_mdata(old(self)@, data@, requester@).0,
            r == store_new_mdata(old(self)@, data@, requester@).1,
    {
        if !data.is_owner(requester) {
            return Err(ClientError::InvalidOwners);
        }
        match self.find_mdata(data.name(), data.tag()) {
            Some(_) => Err(ClientError::DataExists),
            None => {
                proof {
                    lemma_kvs_map_domain(self.mdata_pairs(), (data@.name, data@.tag));
                    lemma_kvs_map_push(self.mdata_pairs(), (data@.name, data@.tag), data@);
                }
                let ghost mid = *self;
                self.mdata.push(data);
                proof {
                    assert(self.mdata_pairs() =~= mid.mdata_pairs().push((
                        (self.mdata@.last()@.name, self.mdata@.last()@.tag),
                        self.mdata@.last()@,
                    )));
                    assert(distinct_keys(self.mdata_pairs())) by {
                        assert(forall|j: int|
                            0 <= j < mid.mdata_pairs().len()
                                ==> self.mdata_pairs()[j] == mid.mdata_pairs()[j]);
                    }
                    assert(self@ =~= (VaultV {
                        mdata: mid@.mdata.insert((self.mdata@.last()@.name,
                            self.mdata@.last()@.tag), self.mdata@.last()@),
                        ..mid@
                    }));
                    assert(forall|j: int|
                        0 <= j < mid.mdata_elems().len()
                            ==> self.mdata_elems()[j] == mid.mdata_elems()[j]);
                }
                Ok(())
            },
        }
    }

    /// Stores a mutable object; a session packet put to its own unclaimed
    /// `ClientManager` name first creates the account.
    pub fn put_mdata(&mut self, dst: Authority, data: MutableData, requester: &PublicKey) -> (r:
        Result<(), ClientError>)
        requires
            old(self).wf(),
            data.wf(),
        ensures
            final(self).wf(),
            final(self)@ == step_put_mdata(old(self)@, dst, data@, requester@).0,
            r == step_put_mdata(old(self)@, dst, data@, requester@).1,
    {
        let dst_name: XorName = match dst {
            Authority::ClientManager(n) => n,
            Authority::NaeManager(_) => {
                return Err(ClientError::InvalidOperation);
            },
        };
        let account_exists = match self.find_account(&dst_name) {
            Some(_) => true,
            None => false,
        };
        if data.tag() == TYPE_TAG_SESSION_PACKET && xor_name_eq(data.name(), &dst_name)
            && !account_exists {
            proof {
                lemma_kvs_map_domain(self.accounts_pairs(), dst_name@);
                lemma_kvs_map_push(
                    self.accounts_pairs(),
                    dst_name@,
                    AccountV {
                        owner_key: requester@,
                        mutations_done: 0,
                        mutations_available: DEFAULT_MAX_MUTATIONS,
                    },
                );
            }
            let ghost mid = *self;
            self.accounts.push((dst_name, Account::new(*requester)));
            proof {
                assert(self.accounts_pairs() =~= mid.accounts_pairs().push((
                    dst_name@,
                    AccountV {
                        owner_key: requester@,
                        mutations_done: 0,
                        mutations_available: DEFAULT_MAX_MUTATIONS,
                    },
                )));
                assert(distinct_keys(self.accounts_pairs())) by {
                    assert(forall|j: int|
                        0 <= j < mid.accounts_pairs().len()
                            ==> self.accounts_pairs()[j] == mid.accounts_pairs()[j]);
                }
                assert(self@ =~= (VaultV {
                    accounts: mid@.accounts.insert(
                        dst_name@,
                        AccountV {
                            owner_key: requester@,
                            mutations_done: 0,
                            mutations_available: DEFAULT_MAX_MUTATIONS,
                        },
                    ),
                    ..mid@
                }));
                assert(forall|j: int|
                    0 <= j < mid.mdata_elems().len()
                        ==> self.mdata_elems()[j] == mid.mdata_elems()[j]);
            }
            self.insert_mdata(data, requester)
        } else {
            match self.charge(&dst_name) {
                Err(e) => Err(e),
                Ok(()) => self.insert_mdata(data, requester),
            }
        }
    }

    /// Version of the mutable object keyed by `name` and `tag`.
    pub fn get_mdata_version(&self, dst: Authority, name: &XorName, tag: u64) -> (r: Result<
        u64,
        ClientError,
    >)
        requires
            self.wf(),
        ensures
            r == step_get_mdata_version(self@, dst, name@, tag),
    {
        match dst {
            Authority::NaeManager(_) => {},
            Authority::ClientManager(_) => {
                return Err(ClientError::InvalidOperation);
            },
        }
        match self.find_mdata(name, tag) {
            Some(i) => Ok(self.mdata[i].version()),
            None => Err(ClientError::NoSuchData),
        }
    }

    /// Copies of the object's entries, tombstones included.
    pub fn list_mdata_entries(&self, dst: Authority, name: &XorName, tag: u64) -> (r: Result<
        Vec<Entry>,
        ClientError,
    >)
        requires
            self.wf(),
        ensures
            match (r, step_list_entries(self@, dst, name@, tag)) {
                (Ok(es), Ok(entries)) => lists_entries_of(es@, entries),
                (Err(e1), Err(e2)) => e1 == e2,
                _ => false,
            },
    {
        match dst {
            Authority::NaeManager(_) => {},
            Authority::ClientManager(_) => {
                return Err(ClientError::InvalidOperation);
            },
        }
        match self.find_mdata(name, tag) {
            Some(i) => {
                proof {
                    assert(self.mdata_elems()[i as int].wf());
                }
                Ok(self.mdata[i].entries())
            },
            None => Err(ClientError::NoSuchData),
        }
    }

    /// Copies of the object's entry keys, tombstones included.
    pub fn list_mdata_keys(&self, dst: Authority, name: &XorName, tag: u64) -> (r: Result<
        Vec<Vec<u8>>,
        ClientError,
    >)
        requires
            self.wf(),
        ensures
            match (r, step_list_entries(self@, dst, name@, tag)) {
                (Ok(ks), Ok(entries)) => lists_keys_of(ks@, entries),
                (Err(e1), Err(e2)) => e1 == e2,
                _ => false,
            },
    {
        match dst {
            Authority::NaeManager(_) => {},
            Authority::ClientManager(_) => {
                return Err(ClientError::InvalidOperation);
            },
        }
        match self.find_mdata(name, tag) {
            Some(i) => {
                let ks = self.mdata[i].keys();
                proof {
                    let ghost me = self.mdata_elems()[i as int];
                    assert(me.wf());
                    assert forall|ii: int| 0 <= ii < ks@.len() implies
                        self@.mdata[(name@, tag)].entries.contains_key(#[trigger] ks@[ii]@) by {
                        lemma_kvs_map_index(me.entries_pairs(), ii);
                    }
                    assert forall|k: Seq<u8>|
                        #[trigger] self@.mdata[(name@, tag)].entries.contains_key(k) implies
                        exists|ii: int| 0 <= ii < ks@.len() && ks@[ii]@ == k by {
                        lemma_kvs_map_domain(me.entries_pairs(), k);
                        let jj = choose|jj: int|
                            0 <= jj < me.entries_pairs().len() && me.entries_pairs()[jj].0 == k;
                        assert(ks@[jj]@ == k);
                    }
                }
                Ok(ks)
            },
            None => Err(ClientError::NoSuchData),
        }
    }

    /// Copies of the object's entry values, tombstones included.
    pub fn list_mdata_values(&self, dst: Authority, name: &XorName, tag: u64) -> (r: Result<
        Vec<Value>,
        ClientError,
    >)
        requires
            self.wf(),
        ensures
            match (r, step_list_entries(self@, dst, name@, tag)) {
                (Ok(vs), Ok(entries)) => lists_values_of(vs@, entries),
                (Err(e1), Err(e2)) => e1 == e2,
                _ => false,
            },
    {
        match dst {
            Authority::NaeManager(_) => {},
            Authority::ClientManager(_) => {
                return Err(ClientError::InvalidOperation);
            },
        }
        match self.find_mdata(name, tag) {
            Some(i) => {
                let vs = self.mdata[i].values();
                proof {
                    let ghost me = self.mdata_elems()[i as int];
                    assert(me.wf());
                    assert(kvs_map(me.entries_pairs()) == self@.mdata[(name@, tag)].entries);
                }
                Ok(vs)
            },
            None => Err(ClientError::NoSuchData),
        }
    }

    /// A copy of the value stored under `key`; a tombstone is returned like
    /// any entry.
    pub fn get_mdata_value(&self, dst: Authority, name: &XorName, tag: u64, key: &Vec<u8>) -> (r:
        Result<Value, ClientError>)
        requires
            self.wf(),
        ensures
            match (r, step_get_value(self@, dst, name@, tag, key@)) {
                (Ok(val), Ok(vv)) => val@ == vv,
                (Err(e1), Err(e2)) => e1 == e2,
                _ => false,
            },
    {
        match dst {
            Authority::NaeManager(_) => {},
            Authority::ClientManager(_) => {
                return Err(ClientError::InvalidOperation);
            },
        }
        match self.find_mdata(name, tag) {
            Some(i) => {
                proof {
                    assert(self.mdata_elems()[i as int].wf());
                }
                match self.mdata[i].get(key) {
                    Some(v) => Ok(v.duplicate()),
                    None => Err(ClientError::NoSuchEntry),
                }
            },
            None => Err(ClientError::NoSuchData),
        }
    }

    /// Copies of the object's permission records.
    pub fn list_mdata_permissions(&self, dst: Authority, name: &XorName, tag: u64) -> (r: Result<
        Vec<(User, PermissionSet)>,
        ClientError,
    >)
        requires
            self.wf(),
        ensures
            match (r, step_list_permissions(self@, dst, name@, tag)) {
                (Ok(ps), Ok(permissions)) => lists_permissions_of(ps@, permissions),
                (Err(e1), Err(e2)) => e1 == e2,
                _ => false,
            },
    {
        match dst {
            Authority::NaeManager(_) => {},
            Authority::ClientManager(_) => {
                return Err(ClientError::InvalidOperation);
            },
        }
        match self.find_mdata(name, tag) {
            Some(i) => {
                proof {
                    assert(self.mdata_elems()[i as int].wf());
                }
                Ok(self.mdata[i].permissions())
            },
            None => Err(ClientError::NoSuchData),
        }
    }

    /// The permission record for exactly `user`.
    pub fn list_mdata_user_permissions(
        &self,
        dst: Authority,
        name: &XorName,
        tag: u64,
        user: &User,
    ) -> (r: Result<PermissionSet, ClientError>)
        requires
            self.wf(),
        ensures
            r == step_list_user_permissions(self@, dst, name@, tag, user@),
    {
        match dst {
            Authority::NaeManager(_) => {},
            Authority::ClientManager(_) => {
                return Err(ClientError::InvalidOperation);
            },
        }
        match self.find_mdata(name, tag) {
            Some(i) => {
                proof {
                    assert(self.mdata_elems()[i as int].wf());
                }
                self.mdata[i].user_permissions(user)
            },
            None => Err(ClientError::NoSuchData),
        }
    }

    /// Charges, then applies an atomic batch of entry actions to the object.
    #[verifier::rlimit(30)]
    pub fn mutate_mdata_entries(
        &mut self,
        dst: Authority,
        name: &XorName,
        tag: u64,
        actions: &Vec<(Vec<u8>, EntryAction)>,
        requester: &PublicKey,
    ) -> (r: Result<(), ClientError>)
        requires
            old(self).wf(),
            distinct_keys(action_pairs_of(actions@)),
        ensures
            final(self).wf(),
            final(self)@ == step_mutate_entries(old(self)@, dst, name@, tag,
                action_pairs_of(actions@), requester@).0,
            r == step_mutate_entries(old(self)@, dst, name@, tag, action_pairs_of(actions@),
                requester@).1,
    {
        let dst_name: XorName = match dst {
            Authority::ClientManager(n) => n,
            Authority::NaeManager(_) => {
                return Err(ClientError::InvalidOperation);
            },
        };
        match self.charge(&dst_name) {
            Err(e) => {
                return Err(e);
            },
            Ok(()) => {},
        }
        let ghost mid = *self;
        match self.find_mdata(name, tag) {
            None => Err(ClientError::NoSuchData),
            Some(i) => {
                proof {
                    assert(self.mdata_elems()[i as int].wf());
                    lemma_kvs_map_update(
                        mid.mdata_pairs(),
                        i as int,
                        mutate_result(mid@.mdata[(name@, tag)], requester@,
                            action_pairs_of(actions@))->Ok_0,
                    );
                }
                let m = &mut self.mdata[i];
                let res = m.mutate_entries(actions, requester);
                proof {
                    let spec_res = mutate_result(mid@.mdata[(name@, tag)], requester@,
                        action_pairs_of(actions@));
                    match res {
                        Ok(()) => {
                            assert(self.mdata_pairs() =~= mid.mdata_pairs().update(
                                i as int,
                                (mid.mdata_pairs()[i as int].0, spec_res->Ok_0),
                            ));
                            assert(self@ =~= (VaultV {
                                mdata: mid@.mdata.insert((name@, tag), spec_res->Ok_0),
                                ..mid@
                            }));
                        },
                        Err(_) => {
                            assert(self.mdata@ =~= mid.mdata@);
                            assert(self@ =~= mid@);
                        },
                    }
                    assert(forall|j: int|
                        0 <= j < mid.mdata_elems().len() && j != i
                            ==> self.mdata_elems()[j] == mid.mdata_elems()[j]);
                    assert forall|k: (Seq<u8>, u64)| #[trigger] self@.mdata.contains_key(k)
                        implies self@.mdata[k].name == k.0 && self@.mdata[k].tag == k.1
                        && (exists|o: Seq<u8>| self@.mdata[k].owners.contains(o)) by {
                        if res is Ok && k == (name@, tag) {
                            let o0 = choose|o: Seq<u8>|
                                mid@.mdata[(name@, tag)].owners.contains(o);
                            assert(self@.mdata[k].owners.contains(o0));
                        } else {
                            assert(self@.mdata[k] == mid@.mdata[k]);
                            let o0 = choose|o: Seq<u8>| mid@.mdata[k].owners.contains(o);
                            assert(self@.mdata[k].owners.contains(o0));
                        }
                    }
                    assert(vault_inv(self@));
                }
                match res {
                    Ok(()) => Ok(()),
                    Err(e) => Err(e),
                }
            },
        }
    }

    /// Charges, then stores a permission record on the object.
    #[verifier::rlimit(30)]
    pub fn set_mdata_user_permissions(
        &mut self,
        dst: Authority,
        name: &XorName,
        tag: u64,
        user: &User,
        permissions: PermissionSet,
        version: u64,
        requester: &PublicKey,
    ) -> (r: Result<(), ClientError>)
        requires
            old(self).wf(),
        ensures
            final(self).wf(),
            final(self)@ == step_set_user_permissions(old(self)@, dst, name@, tag, user@,
                permissions, version, requester@).0,
            r == step_set_user_permissions(old(self)@, dst, name@, tag, user@, permissions,
                version, requester@).1,
    {
        let dst_name: XorName = match dst {
            Authority::ClientManager(n) => n,
            Authority::NaeManager(_) => {
                return Err(ClientError::InvalidOperation);
            },
        };
        match self.charge(&dst_name) {
            Err(e) => {
                return Err(e);
            },
            Ok(()) => {},
        }
        let ghost mid = *self;
        match self.find_mdata(name, tag) {
            None => Err(ClientError::NoSuchData),
            Some(i) => {
                proof {
                    assert(self.mdata_elems()[i as int].wf());
                    lemma_kvs_map_update(
                        mid.mdata_pairs(),
                        i as int,
                        set_perms_result(mid@.mdata[(name@, tag)], user@, permissions, version,
                            requester@)->Ok_0,
                    );
                }
                let m = &mut self.mdata[i];
                let res = m.set_user_permissions(user, permissions, version, requester);
                proof {
                    let spec_res = set_perms_result(mid@.mdata[(name@, tag)], user@, permissions,
                        version, requester@);
                    match res {
                        Ok(()) => {
                            assert(self.mdata_pairs() =~= mid.mdata_pairs().update(
                                i as int,
                                (mid.mdata_pairs()[i as int].0, spec_res->Ok_0),
                            ));
                            assert(self@ =~= (VaultV {
                                mdata: mid@.mdata.insert((name@, tag), spec_res->Ok_0),
                                ..mid@
                            }));
                        },
                        Err(_) => {
                            assert(self.mdata@ =~= mid.mdata@);
                            assert(self@ =~= mid@);
                        },
                    }
                    assert(forall|j: int|
                        0 <= j < mid.mdata_elems().len() && j != i
                            ==> self.mdata_elems()[j] == mid.mdata_elems()[j]);
                    assert forall|k: (Seq<u8>, u64)| #[trigger] self@.mdata.contains_key(k)
                        implies self@.mdata[k].name == k.0 && self@.mdata[k].tag == k.1
                        && (exists|o: Seq<u8>| self@.mdata[k].owners.contains(o)) by {
                        if res is Ok && k == (name@, tag) {
                            let o0 = choose|o: Seq<u8>|
                                mid@.mdata[(name@, tag)].owners.contains(o);
                            assert(self@.mdata[k].owners.contains(o0));
                        } else {
                            assert(self@.mdata[k] == mid@.mdata[k]);
                            let o0 = choose|o: Seq<u8>| mid@.mdata[k].owners.contains(o);
                            assert(self@.mdata[k].owners.contains(o0));
                        }
                    }
                    assert(vault_inv(self@));
                }
                match res {
                    Ok(()) => Ok(()),
                    Err(e) => Err(e),
                }
            },
        }
    }

    /// Charges, then removes a permission record from the object.
    #[verifier::rlimit(30)]
    pub fn del_mdata_user_permissions(
        &mut self,
        dst: Authority,
        name: &XorName,
        tag: u64,
        user: &User,
        version: u64,
        requester: &PublicKey,
    ) -> (r: Result<(), ClientError>)
        requires
            old(self).wf(),
        ensures
            final(self).wf(),
            final(self)@ == step_del_user_permissions(old(self)@, dst, name@, tag, user@, version,
                requester@).0,
            r == step_del_user_permissions(old(self)@, dst, name@, tag, user@, version,
                requester@).1,
    {
        let dst_name: XorName = match dst {
            Authority::ClientManager(n) => n,
            Authority::NaeManager(_) => {
                return Err(ClientError::InvalidOperation);
            },
        };
        match self.charge(&dst_name) {
            Err(e) => {
                return Err(e);
            },
            Ok(()) => {},
        }
        let ghost mid = *self;
        match self.find_mdata(name, tag) {
            None => Err(ClientError::NoSuchData),
            Some(i) => {
                proof {
                    assert(self.mdata_elems()[i as int].wf());
                    lemma_kvs_map_update(
                        mid.mdata_pairs(),
                        i as int,
                        del_perms_result(mid@.mdata[(name@, tag)], user@, version,
                            requester@)->Ok_0,
                    );
                }
                let m = &mut self.mdata[i];
                let res = m.del_user_permissions(user, version, requester);
                proof {
                    let spec_res = del_perms_result(mid@.mdata[(name@, tag)], user@, version,
                        requester@);
                    match res {
                        Ok(()) => {
                            assert(self.mdata_pairs() =~= mid.mdata_pairs().update(
                                i as int,
                                (mid.mdata_pairs()[i as int].0, spec_res->Ok_0),
                            ));
                            assert(self@ =~= (VaultV {
                                mdata: mid@.mdata.insert((name@, tag), spec_res->Ok_0),
                                ..mid@
                            }));
                        },
                        Err(_) => {
                            assert(self.mdata@ =~= mid.mdata@);
                            assert(self@ =~= mid@);
                        },
                    }
                    assert(forall|j: int|
                        0 <= j < mid.mdata_elems().len() && j != i
                            ==> self.mdata_elems()[j] == mid.mdata_elems()[j]);
                    assert forall|k: (Seq<u8>, u64)| #[trigger] self@.mdata.contains_key(k)
                        implies self@.mdata[k].name == k.0 && self@.mdata[k].tag == k.1
                        && (exists|o: Seq<u8>| self@.mdata[k].owners.contains(o)) by {
                        if res is Ok && k == (name@, tag) {
                            let o0 = choose|o: Seq<u8>|
                                mid@.mdata[(name@, tag)].owners.contains(o);
                            assert(self@.mdata[k].owners.contains(o0));
                        } else {
                            assert(self@.mdata[k] == mid@.mdata[k]);
                            let o0 = choose|o: Seq<u8>| mid@.mdata[k].owners.contains(o);
                            assert(self@.mdata[k].owners.contains(o0));
                        }
                    }
                    assert(vault_inv(self@));
                }
                match res {
                    Ok(()) => Ok(()),
                    Err(e) => Err(e),
                }
            },
        }
    }
}

} // verus!

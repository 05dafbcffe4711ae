//! Mutable objects: named, typed, versioned entry maps with per-user
//! permissions, owner overrides, per-entry version-successor rules and
//! atomic multi-action mutations.

use vstd::prelude::*;

use crate::kv::{distinct_keys, kvs_map, lemma_kvs_map_domain, lemma_kvs_map_index,
    lemma_kvs_map_push, lemma_kvs_map_remove, lemma_kvs_map_update};
use crate::types::{Action, ClientError, EntryAction, EntryActionV, PermissionSet, PublicKey,
    User, UserV, Value, ValueV, XorName, bytes_eq, clone_bytes, public_key_eq, user_eq};

verus! {

/// Spec-level image of a mutable object.
#[verifier::ext_equal]
pub ghost struct MdV {
    pub name: Seq<u8>,
    pub tag: u64,
    /// Bumped by permission and owner changes only, never by entry mutations.
    pub version: u64,
    pub owners: Set<Seq<u8>>,
    pub entries: Map<Seq<u8>, ValueV>,
    pub permissions: Map<UserV, PermissionSet>,
}

/// One entry of a mutable object.
#[derive(Clone, Debug, PartialEq, Eq)]
pub struct Entry {
    pub key: Vec<u8>,
    pub value: Value,
}

impl Entry {
    /// Copies the entry.
    pub fn duplicate(&self) -> (r: Entry)
        ensures
            r.key@ == self.key@,
            r.value@ == self.value@,
    {
        Entry { key: clone_bytes(&self.key), value: self.value.duplicate() }
    }
}

/// Key/value images of a sequence of entries.
pub open spec fn entry_pairs_of(s: Seq<Entry>) -> Seq<(Seq<u8>, ValueV)> {
    s.map_values(|e: Entry| (e.key@, e.value@))
}

/// User/permission images of a sequence of permission records.
pub open spec fn perm_pairs_of(s: Seq<(User, PermissionSet)>) -> Seq<(UserV, PermissionSet)> {
    s.map_values(|p: (User, PermissionSet)| (p.0@, p.1))
}

/// Key images of a sequence of owners.
pub open spec fn owner_keys_of(s: Seq<PublicKey>) -> Seq<Seq<u8>> {
    s.map_values(|k: PublicKey| k@)
}

/// Verdict the object's permission record for `user` gives for `action`:
/// `None` when there is no record or the record leaves the action unset.
pub open spec fn user_verdict(m: MdV, user: UserV, action: Action) -> Option<bool> {
    if m.permissions.contains_key(user) {
        m.permissions[user].spec_verdict(action)
    } else {
        None
    }
}

/// Whether `requester` may perform `action`: owners may do anything; for
/// anyone else the record for their own key is consulted first, then the
/// record for any user; the first definite verdict decides, and with no
/// definite verdict the action is denied.
pub open spec fn action_allowed(m: MdV, requester: Seq<u8>, action: Action) -> bool {
    m.owners.contains(requester) || (match user_verdict(m, UserV::Key(requester), action) {
        Some(b) => b,
        None => match user_verdict(m, UserV::AnyUser, action) {
            Some(b) => b,
            None => false,
        },
    })
}

/// Version rule of one entry action, ignoring permissions. An insert needs
/// the key absent (at asserted version 0) or a tombstone (at the tombstone's
/// successor); an update or a delete needs a live entry and the successor of
/// its version.
pub open spec fn entry_version_error(
    entries: Map<Seq<u8>, ValueV>,
    key: Seq<u8>,
    action: EntryActionV,
) -> Option<ClientError> {
    match action {
        EntryActionV::Ins(v) => {
            if entries.contains_key(key) {
                if !entries[key].is_tombstone() {
                    Some(ClientError::EntryExists)
                } else if v.entry_version == entries[key].entry_version + 1 {
                    None
                } else {
                    Some(ClientError::InvalidSuccessor)
                }
            } else {
                if v.entry_version == 0 {
                    None
                } else {
                    Some(ClientError::InvalidSuccessor)
                }
            }
        },
        EntryActionV::Update(v) => {
            if !entries.contains_key(key) || entries[key].is_tombstone() {
                Some(ClientError::NoSuchEntry)
            } else if v.entry_version == entries[key].entry_version + 1 {
                None
            } else {
                Some(ClientError::InvalidSuccessor)
            }
        },
        EntryActionV::Del(ver) => {
            if !entries.contains_key(key) || entries[key].is_tombstone() {
                Some(ClientError::NoSuchEntry)
            } else if ver == entries[key].entry_version + 1 {
                None
            } else {
                Some(ClientError::InvalidSuccessor)
            }
        },
    }
}

/// What one action of a batch fails with, permissions checked first.
pub open spec fn action_error(
    m: MdV,
    requester: Seq<u8>,
    key: Seq<u8>,
    action: EntryActionV,
) -> Option<ClientError> {
    if !action_allowed(m, requester, action.required_action()) {
        Some(ClientError::AccessDenied)
    } else {
        entry_version_error(m.entries, key, action)
    }
}

/// The first error a batch of actions hits against the unchanged object,
/// `None` when every action is valid.
pub open spec fn first_error(
    m: MdV,
    requester: Seq<u8>,
    actions: Seq<(Seq<u8>, EntryActionV)>,
) -> Option<ClientError>
    decreases actions.len(),
{
    if actions.len() == 0 {
        None
    } else if action_error(m, requester, actions[0].0, actions[0].1) is Some {
        action_error(m, requester, actions[0].0, actions[0].1)
    } else {
        first_error(m, requester, actions.drop_first())
    }
}

/// Effect of one valid action on the entries: inserts and updates store the
/// given value; a delete leaves a tombstone at the asserted version.
pub open spec fn apply_action(
    entries: Map<Seq<u8>, ValueV>,
    key: Seq<u8>,
    action: EntryActionV,
) -> Map<Seq<u8>, ValueV> {
    match action {
        EntryActionV::Ins(v) => entries.insert(key, v),
        EntryActionV::Update(v) => entries.insert(key, v),
        EntryActionV::Del(ver) => entries.insert(
            key,
            ValueV { content: Seq::empty(), entry_version: ver },
        ),
    }
}

/// Effect of a whole batch on the entries, applied first to last.
pub open spec fn apply_actions(
    entries: Map<Seq<u8>, ValueV>,
    actions: Seq<(Seq<u8>, EntryActionV)>,
) -> Map<Seq<u8>, ValueV>
    decreases actions.len(),
{
    if actions.len() == 0 {
        entries
    } else {
        apply_action(
            apply_actions(entries, actions.drop_last()),
            actions.last().0,
            actions.last().1,
        )
    }
}

/// Outcome of `mutate_entries`: all-or-nothing. Any invalid action fails the
/// whole batch with the first error and changes nothing; otherwise every
/// action is applied and only the entries change.
pub open spec fn mutate_result(
    m: MdV,
    requester: Seq<u8>,
    actions: Seq<(Seq<u8>, EntryActionV)>,
) -> Result<MdV, ClientError> {
    match first_error(m, requester, actions) {
        Some(e) => Err(e),
        None => Ok(MdV { entries: apply_actions(m.entries, actions), ..m }),
    }
}

/// Outcome of `set_user_permissions`: the requester needs
/// `ManagePermissions` (owners always have it), the given version must be
/// the successor of the object's, and on success the record is stored and
/// the object's version bumped to the given one.
pub open spec fn set_perms_result(
    m: MdV,
    user: UserV,
    permissions: PermissionSet,
    version: u64,
    requester: Seq<u8>,
) -> Result<MdV, ClientError> {
    if !action_allowed(m, requester, Action::ManagePermissions) {
        Err(ClientError::AccessDenied)
    } else if version != m.version + 1 {
        Err(ClientError::InvalidSuccessor)
    } else {
        Ok(MdV { permissions: m.permissions.insert(user, permissions), version, ..m })
    }
}

/// Outcome of `del_user_permissions`: as for setting, but the user must have
/// a record, which is removed.
pub open spec fn del_perms_result(
    m: MdV,
    user: UserV,
    version: u64,
    requester: Seq<u8>,
) -> Result<MdV, ClientError> {
    if !action_allowed(m, requester, Action::ManagePermissions) {
        Err(ClientError::AccessDenied)
    } else if version != m.version + 1 {
        Err(ClientError::InvalidSuccessor)
    } else if !m.permissions.contains_key(user) {
        Err(ClientError::NoSuchKey)
    } else {
        Ok(MdV { permissions: m.permissions.remove(user), version, ..m })
    }
}

/// A mutable object. The key is the pair of `name` and `tag`; the owner set
/// is fixed at creation and must not be empty.
#[derive(Clone, Debug, PartialEq, Eq)]
pub struct MutableData {
    name: XorName,
    tag: u64,
    version: u64,
    owners: Vec<PublicKey>,
    entries: Vec<Entry>,
    permissions: Vec<(User, PermissionSet)>,
}

impl View for MutableData {
    type V = MdV;

    closed spec fn view(&self) -> MdV {
        MdV {
            name: self.name@,
            tag: self.tag,
            version: self.version,
            owners: owner_keys_of(self.owners@).to_set(),
            entries: kvs_map(self.entries_pairs()),
            permissions: kvs_map(self.perms_pairs()),
        }
    }
}

impl MutableData {
    /// The stored entries as key/value pairs, in store order.
    pub closed spec fn entries_pairs(self) -> Seq<(Seq<u8>, ValueV)> {
        entry_pairs_of(self.entries@)
    }

    /// The stored permission records as user/set pairs, in store order.
    pub closed spec fn perms_pairs(self) -> Seq<(UserV, PermissionSet)> {
        perm_pairs_of(self.permissions@)
    }

    /// Well-formedness: the pair sequences carry distinct keys and denote
    /// the view's maps, and the owner set is not empty.
    pub open spec fn wf(self) -> bool {
        &&& distinct_keys(self.entries_pairs())
        &&& kvs_map(self.entries_pairs()) == self@.entries
        &&& distinct_keys(self.perms_pairs())
        &&& kvs_map(self.perms_pairs()) == self@.permissions
        &&& exists|k: Seq<u8>| self@.owners.contains(k)
    }

    /// Builds a mutable object; rejects an empty owner set.
    pub fn new(
        name: XorName,
        tag: u64,
        permissions: Vec<(User, PermissionSet)>,
        entries: Vec<Entry>,
        owners: Vec<PublicKey>,
    ) -> (r: Result<MutableData, ClientError>)
        requires
            distinct_keys(entry_pairs_of(entries@)),
            distinct_keys(perm_pairs_of(permissions@)),
        ensures
            match r {
                Ok(md) => {
                    &&& owners@.len() > 0
                    &&& md.wf()
                    &&& md@ == (MdV {
                        name: name@,
                        tag,
                        version: 0,
                        owners: owner_keys_of(owners@).to_set(),
                        entries: kvs_map(entry_pairs_of(entries@)),
                        permissions: kvs_map(perm_pairs_of(permissions@)),
                    })
                },
                Err(e) => owners@.len() == 0 && e == ClientError::InvalidOwners,
            },
    {
        if owners.len() == 0 {
            return Err(ClientError::InvalidOwners);
        }
        let md = MutableData { name, tag, version: 0, owners, entries, permissions };
        proof {
            assert(owner_keys_of(md.owners@).contains(owner_keys_of(md.owners@)[0]));
            assert(md@.owners.contains(owner_keys_of(md.owners@)[0]));
        }
        Ok(md)
    }

    /// Name of the object.
    pub fn name(&self) -> (r: &XorName)
        ensures
            r@ == self@.name,
    {
        &self.name
    }

    /// Type tag of the object.
    pub fn tag(&self) -> (r: u64)
        ensures
            r == self@.tag,
    {
        self.tag
    }

    /// Version of the object: the count of permission and owner changes.
    pub fn version(&self) -> (r: u64)
        ensures
            r == self@.version,
    {
        self.version
    }

    /// Whether `key` is one of the owners.
    pub fn is_owner(&self, key: &PublicKey) -> (r: bool)
        ensures
            r == self@.owners.contains(key@),
    {
        let mut i: usize = 0;
        while i < self.owners.len()
            invariant
                i <= self.owners@.len(),
                forall|j: int| 0 <= j < i ==> self.owners@[j]@ != key@,
            decreases self.owners@.len() - i,
        {
            if public_key_eq(&self.owners[i], key) {
                proof {
                    assert(owner_keys_of(self.owners@)[i as int] == key@);
                }
                return true;
            }
            i += 1;
        }
        proof {
            assert(forall|j: int|
                0 <= j < owner_keys_of(self.owners@).len()
                    ==> owner_keys_of(self.owners@)[j] != key@);
        }
        false
    }

    /// Index of the entry stored under `key`, if any.
    fn find_entry(&self, key: &Vec<u8>) -> (r: Option<usize>)
        requires
            self.wf(),
        ensures
            match r {
                Some(i) => {
                    &&& i < self.entries_pairs().len()
                    &&& self.entries_pairs()[i as int].0 == key@
                    &&& self@.entries.contains_key(key@)
                    &&& self@.entries[key@] == self.entries_pairs()[i as int].1
                },
                None => !self@.entries.contains_key(key@),
            },
    {
        let mut i: usize = 0;
        while i < self.entries.len()
            invariant
                self.wf(),
                i <= self.entries@.len(),
                forall|j: int| 0 <= j < i ==> self.entries@[j].key@ != key@,
            decreases self.entries@.len() - i,
        {
            if bytes_eq(&self.entries[i].key, key) {
                proof {
                    lemma_kvs_map_index(self.entries_pairs(), i as int);
                }
                return Some(i);
            }
            i += 1;
        }
        proof {
            lemma_kvs_map_domain(self.entries_pairs(), key@);
        }
        None
    }

    /// Index of the permission record for `user`, if any.
    fn find_perm(&self, user: &User) -> (r: Option<usize>)
        requires
            self.wf(),
        ensures
            match r {
                Some(i) => {
                    &&& i < self.perms_pairs().len()
                    &&& self.perms_pairs()[i as int].0 == user@
                    &&& self@.permissions.contains_key(user@)
                    &&& self@.permissions[user@] == self.perms_pairs()[i as int].1
                },
                None => !self@.permissions.contains_key(user@),
            },
    {
        let mut i: usize = 0;
        while i < self.permissions.len()
            invariant
                self.wf(),
                i <= self.permissions@.len(),
                forall|j: int| 0 <= j < i ==> self.permissions@[j].0@ != user@,
            decreases self.permissions@.len() - i,
        {
            if user_eq(&self.permissions[i].0, user) {
                proof {
                    lemma_kvs_map_index(self.perms_pairs(), i as int);
                }
                return Some(i);
            }
            i += 1;
        }
        proof {
            lemma_kvs_map_domain(self.perms_pairs(), user@);
        }
        None
    }

    /// Whether `requester` may perform `action` on this object.
    pub fn is_action_allowed(&self, requester: &PublicKey, action: Action) -> (r: bool)
        requires
            self.wf(),
        ensures
            r == action_allowed(self@, requester@, action),
    {
        if self.is_owner(requester) {
            return true;
        }
        match self.find_perm(&User::Key(*requester)) {
            Some(i) => {
                match self.permissions[i].1.is_allowed(action) {
                    Some(b) => {
                        return b;
                    },
                    None => {},
                }
            },
            None => {},
        }
        match self.find_perm(&User::AnyUser) {
            Some(i) => {
                match self.permissions[i].1.is_allowed(action) {
                    Some(b) => b,
                    None => false,
                }
            },
            None => false,
        }
    }

    /// The stored value under `key`; tombstones are returned like any entry.
    pub fn get(&self, key: &Vec<u8>) -> (r: Option<&Value>)
        requires
            self.wf(),
        ensures
            match r {
                Some(v) => self@.entries.contains_key(key@) && v@ == self@.entries[key@],
                None => !self@.entries.contains_key(key@),
            },
    {
        match self.find_entry(key) {
            Some(i) => Some(&self.entries[i].value),
            None => None,
        }
    }

    /// Copies of all entries, tombstones included.
    pub fn entries(&self) -> (r: Vec<Entry>)
        ensures
            entry_pairs_of(r@) == self.entries_pairs(),
    {
        let mut out: Vec<Entry> = Vec::new();
        let mut i: usize = 0;
        while i < self.entries.len()
            invariant
                i <= self.entries@.len(),
                out@.len() == i,
                forall|j: int| 0 <= j < i ==> out@[j].key@ == self.entries@[j].key@
                    && out@[j].value@ == self.entries@[j].value@,
            decreases self.entries@.len() - i,
        {
            out.push(self.entries[i].duplicate());
            i += 1;
        }
        proof {
            assert(entry_pairs_of(out@) =~= self.entries_pairs());
        }
        out
    }

    /// Copies of all entry keys, tombstones included.
    pub fn keys(&self) -> (r: Vec<Vec<u8>>)
        ensures
            r@.len() == self.entries_pairs().len(),
            forall|i: int| 0 <= i < r@.len() ==> r@[i]@ == self.entries_pairs()[i].0,
    {
        let mut out: Vec<Vec<u8>> = Vec::new();
        let mut i: usize = 0;
        while i < self.entries.len()
            invariant
                i <= self.entries@.len(),
                out@.len() == i,
                forall|j: int| 0 <= j < i ==> out@[j]@ == self.entries_pairs()[j].0,
            decreases self.entries@.len() - i,
        {
            out.push(clone_bytes(&self.entries[i].key));
            i += 1;
        }
        out
    }

    /// Copies of all entry values, tombstones included.
    pub fn values(&self) -> (r: Vec<Value>)
        ensures
            r@.len() == self.entries_pairs().len(),
            forall|i: int| 0 <= i < r@.len() ==> r@[i]@ == self.entries_pairs()[i].1,
    {
        let mut out: Vec<Value> = Vec::new();
        let mut i: usize = 0;
        while i < self.entries.len()
            invariant
                i <= self.entries@.len(),
                out@.len() == i,
                forall|j: int| 0 <= j < i ==> out@[j]@ == self.entries_pairs()[j].1,
            decreases self.entries@.len() - i,
        {
            out.push(self.entries[i].value.duplicate());
            i += 1;
        }
        out
    }

    /// Copies of all permission records.
    pub fn permissions(&self) -> (r: Vec<(User, PermissionSet)>)
        ensures
            perm_pairs_of(r@) == self.perms_pairs(),
    {
        let mut out: Vec<(User, PermissionSet)> = Vec::new();
        let mut i: usize = 0;
        while i < self.permissions.len()
            invariant
                i <= self.permissions@.len(),
                out@.len() == i,
                forall|j: int| 0 <= j < i ==> out@[j] == self.permissions@[j],
            decreases self.permissions@.len() - i,
        {
            out.push(self.permissions[i]);
            i += 1;
        }
        proof {
            assert(perm_pairs_of(out@) =~= self.perms_pairs());
        }
        out
    }

    /// The permission record for exactly `user`; `AnyUser` is not consulted
    /// for a key.
    pub fn user_permissions(&self, user: &User) -> (r: Result<PermissionSet, ClientError>)
        requires
            self.wf(),
        ensures
            match r {
                Ok(ps) => self@.permissions.contains_key(user@)
                    && ps == self@.permissions[user@],
                Err(e) => !self@.permissions.contains_key(user@)
                    && e == ClientError::NoSuchKey,
            },
    {
        match self.find_perm(user) {
            Some(i) => Ok(self.permissions[i].1),
            None => Err(ClientError::NoSuchKey),
        }
    }
}

/// Key/action images of a batch of entry actions.
pub open spec fn action_pairs_of(s: Seq<(Vec<u8>, EntryAction)>) -> Seq<(Seq<u8>, EntryActionV)> {
    s.map_values(|p: (Vec<u8>, EntryAction)| (p.0@, p.1@))
}

/// When every action before `i` is valid and the one at `i` is not, the
/// batch fails with the error at `i`.
proof fn lemma_first_error_at(
    m: MdV,
    requester: Seq<u8>,
    actions: Seq<(Seq<u8>, EntryActionV)>,
    i: int,
)
    requires
        0 <= i < actions.len(),
        forall|j: int| 0 <= j < i ==> action_error(m, requester, actions[j].0, actions[j].1)
            is None,
        action_error(m, requester, actions[i].0, actions[i].1) is Some,
    ensures
        first_error(m, requester, actions) == action_error(m, requester, actions[i].0,
            actions[i].1),
    decreases i,
{
    if i > 0 {
        assert(forall|j: int| 0 <= j < i - 1 ==> actions.drop_first()[j] == actions[j + 1]);
        lemma_first_error_at(m, requester, actions.drop_first(), i - 1);
    }
}

/// A batch whose actions are all valid hits no error.
proof fn lemma_first_error_none(m: MdV, requester: Seq<u8>, actions: Seq<(Seq<u8>, EntryActionV)>)
    requires
        forall|j: int| 0 <= j < actions.len() ==> action_error(m, requester, actions[j].0,
            actions[j].1) is None,
    ensures
        first_error(m, requester, actions) is None,
    decreases actions.len(),
{
    if actions.len() > 0 {
        assert(forall|j: int|
            0 <= j < actions.len() - 1 ==> actions.drop_first()[j] == actions[j + 1]);
        lemma_first_error_none(m, requester, actions.drop_first());
    }
}

/// A key no action names keeps its entry.
proof fn lemma_apply_actions_untouched(
    entries: Map<Seq<u8>, ValueV>,
    actions: Seq<(Seq<u8>, EntryActionV)>,
    k: Seq<u8>,
)
    requires
        forall|j: int| 0 <= j < actions.len() ==> actions[j].0 != k,
    ensures
        apply_actions(entries, actions).contains_key(k) == entries.contains_key(k),
        entries.contains_key(k) ==> apply_actions(entries, actions)[k] == entries[k],
    decreases actions.len(),
{
    if actions.len() > 0 {
        assert(forall|j: int|
            0 <= j < actions.len() - 1 ==> actions.drop_last()[j] == actions[j]);
        lemma_apply_actions_untouched(entries, actions.drop_last(), k);
        assert(actions.last().0 != k);
    }
}

impl MutableData {
    /// Version rule of one action against the current entries, as
    /// executable code.
    fn check_entry_action(&self, key: &Vec<u8>, action: &EntryAction) -> (r: Option<ClientError>)
        requires
            self.wf(),
        ensures
            r == entry_version_error(self@.entries, key@, action@),
    {
        let found = self.find_entry(key);
        match action {
            EntryAction::Ins(v) => {
                match found {
                    Some(i) => {
                        let cur = &self.entries[i].value;
                        if cur.content.len() > 0 {
                            Some(ClientError::EntryExists)
                        } else if v.entry_version >= 1 && v.entry_version - 1 == cur.entry_version {
                            None
                        } else {
                            Some(ClientError::InvalidSuccessor)
                        }
                    },
                    None => {
                        if v.entry_version == 0 {
                            None
                        } else {
                            Some(ClientError::InvalidSuccessor)
                        }
                    },
                }
            },
            EntryAction::Update(v) => {
                match found {
                    Some(i) => {
                        let cur = &self.entries[i].value;
                        if cur.content.len() == 0 {
                            Some(ClientError::NoSuchEntry)
                        } else if v.entry_version >= 1 && v.entry_version - 1 == cur.entry_version {
                            None
                        } else {
                            Some(ClientError::InvalidSuccessor)
                        }
                    },
                    None => Some(ClientError::NoSuchEntry),
                }
            },
            EntryAction::Del(ver) => {
                match found {
                    Some(i) => {
                        let cur = &self.entries[i].value;
                        if cur.content.len() == 0 {
                            Some(ClientError::NoSuchEntry)
                        } else if *ver >= 1 && *ver - 1 == cur.entry_version {
                            None
                        } else {
                            Some(ClientError::InvalidSuccessor)
                        }
                    },
                    None => Some(ClientError::NoSuchEntry),
                }
            },
        }
    }

    /// Overwrites the value stored at entry index `idx`, keeping its key.
    fn set_entry_value(&mut self, idx: usize, value: Value)
        requires
            old(self).wf(),
            idx < old(self).entries_pairs().len(),
        ensures
            final(self).wf(),
            final(self)@ == (MdV {
                entries: old(self)@.entries.insert(old(self).entries_pairs()[idx as int].0,
                    value@),
                ..old(self)@
            }),
    {
        proof {
            lemma_kvs_map_update(old(self).entries_pairs(), idx as int, value@);
        }
        let e = &mut self.entries[idx];
        e.value = value;
        proof {
            assert(self.entries_pairs() =~= old(self).entries_pairs().update(
                idx as int,
                (old(self).entries_pairs()[idx as int].0, value@),
            ));
            assert(self@ =~= (MdV {
                entries: old(self)@.entries.insert(old(self).entries_pairs()[idx as int].0,
                    value@),
                ..old(self)@
            }));
            let k0 = choose|k: Seq<u8>| old(self)@.owners.contains(k);
            assert(self@.owners.contains(k0));
        }
    }

    /// Appends an entry under a key that is not yet present.
    fn push_entry(&mut self, key: &Vec<u8>, value: Value)
        requires
            old(self).wf(),
            !old(self)@.entries.contains_key(key@),
        ensures
            final(self).wf(),
            final(self)@ == (MdV {
                entries: old(self)@.entries.insert(key@, value@),
                ..old(self)@
            }),
    {
        proof {
            lemma_kvs_map_domain(old(self).entries_pairs(), key@);
            lemma_kvs_map_push(old(self).entries_pairs(), key@, value@);
        }
        self.entries.push(Entry { key: clone_bytes(key), value });
        proof {
            assert(self.entries_pairs() =~= old(self).entries_pairs().push((key@, value@)));
            assert(distinct_keys(self.entries_pairs())) by {
                assert(forall|j: int|
                    0 <= j < old(self).entries_pairs().len()
                        ==> self.entries_pairs()[j] == old(self).entries_pairs()[j]);
            }
            assert(self@ =~= (MdV {
                entries: old(self)@.entries.insert(key@, value@),
                ..old(self)@
            }));
            let k0 = choose|k: Seq<u8>| old(self)@.owners.contains(k);
            assert(self@.owners.contains(k0));
        }
    }

    /// Applies a batch of entry actions atomically: permissions and version
    /// rules are checked for every action against the unchanged object, and
    /// either the first error is returned with the object untouched, or all
    /// actions are applied. The object's version does not change.
    pub fn mutate_entries(&mut self, actions: &Vec<(Vec<u8>, EntryAction)>, requester: &PublicKey)
        -> (r: Result<(), ClientError>)
        requires
            old(self).wf(),
            distinct_keys(action_pairs_of(actions@)),
        ensures
            final(self).wf(),
            match r {
                Ok(()) => mutate_result(old(self)@, requester@, action_pairs_of(actions@))
                    == Ok::<MdV, ClientError>(final(self)@),
                Err(e) => mutate_result(old(self)@, requester@, action_pairs_of(actions@))
                    == Err::<MdV, ClientError>(e) && *final(self) == *old(self),
            },
    {
        let ghost pairs = action_pairs_of(actions@);
        let mut i: usize = 0;
        while i < actions.len()
            invariant
                *self == *old(self),
                self.wf(),
                i <= pairs.len(),
                pairs == action_pairs_of(actions@),
                forall|j: int| 0 <= j < i ==> action_error(self@, requester@, pairs[j].0,
                    pairs[j].1) is None,
            decreases pairs.len() - i,
        {
            let pair = &actions[i];
            let req_act = match &pair.1 {
                EntryAction::Ins(_) => Action::Insert,
                EntryAction::Update(_) => Action::Update,
                EntryAction::Del(_) => Action::Delete,
            };
            if !self.is_action_allowed(requester, req_act) {
                proof {
                    lemma_first_error_at(self@, requester@, pairs, i as int);
                }
                return Err(ClientError::AccessDenied);
            }
            let check = self.check_entry_action(&pair.0, &pair.1);
            match check {
                Some(e) => {
                    proof {
                        lemma_first_error_at(self@, requester@, pairs, i as int);
                    }
                    return Err(e);
                },
                None => {},
            }
            i += 1;
        }
        proof {
            lemma_first_error_none(self@, requester@, pairs);
        }
        let mut i: usize = 0;
        while i < actions.len()
            invariant
                self.wf(),
                i <= pairs.len(),
                pairs == action_pairs_of(actions@),
                distinct_keys(pairs),
                forall|j: int| 0 <= j < pairs.len() ==> action_error(old(self)@, requester@,
                    pairs[j].0, pairs[j].1) is None,
                self@.entries == apply_actions(old(self)@.entries, pairs.take(i as int)),
                self@.name == old(self)@.name,
                self@.tag == old(self)@.tag,
                self@.version == old(self)@.version,
                self@.owners == old(self)@.owners,
                self@.permissions == old(self)@.permissions,
            decreases pairs.len() - i,
        {
            let pair = &actions[i];
            proof {
                assert(forall|j: int|
                    0 <= j < i ==> pairs.take(i as int)[j].0 != pairs[i as int].0);
                lemma_apply_actions_untouched(
                    old(self)@.entries,
                    pairs.take(i as int),
                    pairs[i as int].0,
                );
            }
            match &pair.1 {
                EntryAction::Ins(v) => {
                    match self.find_entry(&pair.0) {
                        Some(idx) => {
                            self.set_entry_value(idx, v.duplicate());
                        },
                        None => {
                            self.push_entry(&pair.0, v.duplicate());
                        },
                    }
                },
                EntryAction::Update(v) => {
                    match self.find_entry(&pair.0) {
                        Some(idx) => {
                            self.set_entry_value(idx, v.duplicate());
                        },
                        None => {
                            vstd::pervasive::unreached::<()>();
                        },
                    }
                },
                EntryAction::Del(ver) => {
                    match self.find_entry(&pair.0) {
                        Some(idx) => {
                            self.set_entry_value(
                                idx,
                                Value { content: Vec::new(), entry_version: *ver },
                            );
                        },
                        None => {
                            vstd::pervasive::unreached::<()>();
                        },
                    }
                },
            }
            proof {
                assert(pairs.take(i + 1).drop_last() =~= pairs.take(i as int));
                assert(pairs.take(i + 1).last() == pairs[i as int]);
                assert(self@.entries =~= apply_actions(old(self)@.entries, pairs.take(i + 1)));
            }
            i += 1;
        }
        proof {
            assert(pairs.take(pairs.len() as int) =~= pairs);
            assert(self@ =~= (MdV {
                entries: apply_actions(old(self)@.entries, pairs),
                ..old(self)@
            }));
        }
        Ok(())
    }

    /// Stores a permission record for `user`, replacing any old one; needs
    /// `ManagePermissions` and the successor of the object's version, which
    /// it becomes.
    pub fn set_user_permissions(
        &mut self,
        user: &User,
        permissions: PermissionSet,
        version: u64,
        requester: &PublicKey,
    ) -> (r: Result<(), ClientError>)
        requires
            old(self).wf(),
        ensures
            final(self).wf(),
            match r {
                Ok(()) => set_perms_result(old(self)@, user@, permissions, version, requester@)
                    == Ok::<MdV, ClientError>(final(self)@),
                Err(e) => set_perms_result(old(self)@, user@, permissions, version, requester@)
                    == Err::<MdV, ClientError>(e) && *final(self) == *old(self),
            },
    {
        if !self.is_action_allowed(requester, Action::ManagePermissions) {
            return Err(ClientError::AccessDenied);
        }
        if !(version >= 1 && version - 1 == self.version) {
            return Err(ClientError::InvalidSuccessor);
        }
        match self.find_perm(user) {
            Some(i) => {
                proof {
                    lemma_kvs_map_update(old(self).perms_pairs(), i as int, permissions);
                }
                let p = &mut self.permissions[i];
                p.1 = permissions;
                proof {
                    assert(self.perms_pairs() =~= old(self).perms_pairs().update(
                        i as int,
                        (old(self).perms_pairs()[i as int].0, permissions),
                    ));
                }
            },
            None => {
                proof {
                    lemma_kvs_map_domain(old(self).perms_pairs(), user@);
                    lemma_kvs_map_push(old(self).perms_pairs(), user@, permissions);
                }
                self.permissions.push((*user, permissions));
                proof {
                    assert(self.perms_pairs() =~= old(self).perms_pairs().push((
                        user@,
                        permissions,
                    )));
                    assert(distinct_keys(self.perms_pairs())) by {
                        assert(forall|j: int|
                            0 <= j < old(self).perms_pairs().len()
                                ==> self.perms_pairs()[j] == old(self).perms_pairs()[j]);
                    }
                }
            },
        }
        self.version = version;
        proof {
            assert(self@ =~= (MdV {
                permissions: old(self)@.permissions.insert(user@, permissions),
                version,
                ..old(self)@
            }));
            let k0 = choose|k: Seq<u8>| old(self)@.owners.contains(k);
            assert(self@.owners.contains(k0));
        }
        Ok(())
    }

    /// Removes the permission record for `user`; needs `ManagePermissions`,
    /// the successor of the object's version (which it becomes), and an
    /// existing record.
    pub fn del_user_permissions(&mut self, user: &User, version: u64, requester: &PublicKey)
        -> (r: Result<(), ClientError>)
        requires
            old(self).wf(),
        ensures
            final(self).wf(),
            match r {
                Ok(()) => del_perms_result(old(self)@, user@, version, requester@)
                    == Ok::<MdV, ClientError>(final(self)@),
                Err(e) => del_perms_result(old(self)@, user@, version, requester@)
                    == Err::<MdV, ClientError>(e) && *final(self) == *old(self),
            },
    {
        if !self.is_action_allowed(requester, Action::ManagePermissions) {
            return Err(ClientError::AccessDenied);
        }
        if !(version >= 1 && version - 1 == self.version) {
            return Err(ClientError::InvalidSuccessor);
        }
        match self.find_perm(user) {
            Some(i) => {
                proof {
                    lemma_kvs_map_remove(old(self).perms_pairs(), i as int);
                }
                let _ = self.permissions.remove(i);
                proof {
                    assert(self.perms_pairs() =~= old(self).perms_pairs().remove(i as int));
                }
                self.version = version;
                proof {
                    assert(self@ =~= (MdV {
                        permissions: old(self)@.permissions.remove(user@),
                        version,
                        ..old(self)@
                    }));
                    let k0 = choose|k: Seq<u8>| old(self)@.owners.contains(k);
                    assert(self@.owners.contains(k0));
                }
                Ok(())
            },
            None => Err(ClientError::NoSuchKey),
        }
    }
}

} // verus!

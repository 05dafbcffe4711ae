//! Identifiers and primitive values: names, signing keys, message ids,
//! authorities, errors, actions, permission sets, entry values and actions.

use vstd::prelude::*;

verus! {

/// Width in bytes of every object and account name.
pub const XOR_NAME_LEN: usize = 32;

/// Fixed-width opaque identifier of an account, an immutable object or a
/// mutable object.
#[derive(Clone, Copy, Debug, PartialEq, Eq)]
pub struct XorName(pub [u8; XOR_NAME_LEN]);

impl View for XorName {
    type V = Seq<u8>;

    open spec fn view(&self) -> Seq<u8> {
        self.0@
    }
}

/// Public half of a signing key pair; used as a user identity in owner sets
/// and permission records. The mock never verifies signatures: the
/// `requester` argument of mutating requests is trusted as ground truth.
#[derive(Clone, Copy, Debug, PartialEq, Eq)]
pub struct PublicKey(pub [u8; XOR_NAME_LEN]);

impl View for PublicKey {
    type V = Seq<u8>;

    open spec fn view(&self) -> Seq<u8> {
        self.0@
    }
}

/// Compares two names byte for byte.
pub fn xor_name_eq(a: &XorName, b: &XorName) -> (r: bool)
    ensures
        r == (a@ == b@),
{
    bytes32_eq(&a.0, &b.0)
}

/// Compares two public keys byte for byte.
pub fn public_key_eq(a: &PublicKey, b: &PublicKey) -> (r: bool)
    ensures
        r == (a@ == b@),
{
    bytes32_eq(&a.0, &b.0)
}

fn bytes32_eq(a: &[u8; 32], b: &[u8; 32]) -> (r: bool)
    ensures
        r == (a@ == b@),
{
    let mut i: usize = 0;
    while i < 32
        invariant
            i <= 32,
            forall|j: int| 0 <= j < i ==> a@[j] == b@[j],
        decreases 32 - i,
    {
        if a[i] != b[i] {
            return false;
        }
        i += 1;
    }
    proof {
        assert(a@ =~= b@);
    }
    true
}

/// Compares two byte strings.
pub fn bytes_eq(a: &Vec<u8>, b: &Vec<u8>) -> (r: bool)
    ensures
        r == (a@ == b@),
{
    if a.len() != b.len() {
        return false;
    }
    let mut i: usize = 0;
    while i < a.len()
        invariant
            i <= a@.len(),
            a@.len() == b@.len(),
            forall|j: int| 0 <= j < i ==> a@[j] == b@[j],
        decreases a@.len() - i,
    {
        if a[i] != b[i] {
            return false;
        }
        i += 1;
    }
    proof {
        assert(a@ =~= b@);
    }
    true
}

/// Copies a byte string.
pub fn clone_bytes(v: &Vec<u8>) -> (r: Vec<u8>)
    ensures
        r@ == v@,
{
    let mut out: Vec<u8> = Vec::new();
    let mut i: usize = 0;
    while i < v.len()
        invariant
            i <= v@.len(),
            out@ == v@.take(i as int),
        decreases v@.len() - i,
    {
        out.push(v[i]);
        proof {
            assert(out@ =~= v@.take(i + 1 as int));
        }
        i += 1;
    }
    proof {
        assert(v@.take(v@.len() as int) =~= v@);
    }
    out
}

/// Caller-chosen opaque 128-bit identifier that pairs a response event with
/// its request.
#[derive(Clone, Copy, Debug, PartialEq, Eq, Structural)]
pub struct MessageId(pub u64, pub u64);

/// Destination of a request: an account-scoped operation goes to the
/// `ClientManager` of the account's name, a data-scoped read to the
/// `NaeManager` of the object's name.
#[derive(Clone, Copy, Debug, PartialEq, Eq)]
pub enum Authority {
    ClientManager(XorName),
    NaeManager(XorName),
}

impl Authority {
    /// Name the authority is scoped to.
    pub open spec fn spec_name(self) -> Seq<u8> {
        match self {
            Authority::ClientManager(n) => n@,
            Authority::NaeManager(n) => n@,
        }
    }

    pub open spec fn is_client_manager(self) -> bool {
        self matches Authority::ClientManager(_)
    }

    pub open spec fn is_nae_manager(self) -> bool {
        self matches Authority::NaeManager(_)
    }
}

/// Every way a request can fail. Errors never mutate state.
#[derive(Clone, Copy, Debug, PartialEq, Eq, Structural)]
pub enum ClientError {
    /// No object with the given name (and tag) is stored.
    NoSuchData,
    /// The addressed mutable object has no such entry key.
    NoSuchEntry,
    /// No account is registered under the target name.
    NoSuchAccount,
    /// An object with the given name (and tag) already exists.
    DataExists,
    /// An insert hit a live (non-tombstone) entry.
    EntryExists,
    /// The requester holds no permission for the attempted action.
    AccessDenied,
    /// The requester of a `PutMData` is not among the object's owners, or
    /// the owner set is empty.
    InvalidOwners,
    /// A version (entry or object) is not the successor of the stored one.
    InvalidSuccessor,
    /// The charging account has no mutations left.
    LowBalance,
    /// The request was sent to the wrong authority class.
    InvalidOperation,
    /// No permission record exists for the given user.
    NoSuchKey,
}

/// The four actions a permission set can speak about.
#[derive(Clone, Copy, Debug, PartialEq, Eq, Structural)]
pub enum Action {
    Insert,
    Update,
    Delete,
    ManagePermissions,
}

/// A permission record's subject: one signing key, or every requester.
#[derive(Clone, Copy, Debug, PartialEq, Eq)]
pub enum User {
    AnyUser,
    Key(PublicKey),
}

/// Spec-level image of a `User`, with the key as a byte sequence.
pub ghost enum UserV {
    AnyUser,
    Key(Seq<u8>),
}

impl View for User {
    type V = UserV;

    open spec fn view(&self) -> UserV {
        match *self {
            User::AnyUser => UserV::AnyUser,
            User::Key(k) => UserV::Key(k@),
        }
    }
}

/// Compares two users.
pub fn user_eq(a: &User, b: &User) -> (r: bool)
    ensures
        r == (a@ == b@),
{
    match (a, b) {
        (User::AnyUser, User::AnyUser) => true,
        (User::Key(ka), User::Key(kb)) => public_key_eq(ka, kb),
        _ => false,
    }
}

/// Three-valued assignment (allow / deny / unset) over the four actions.
#[derive(Clone, Copy, Debug, PartialEq, Eq)]
pub struct PermissionSet {
    pub insert: Option<bool>,
    pub update: Option<bool>,
    pub delete: Option<bool>,
    pub manage_permissions: Option<bool>,
}

impl PermissionSet {
    /// Verdict this set gives for one action: `None` when unset.
    pub open spec fn spec_verdict(self, action: Action) -> Option<bool> {
        match action {
            Action::Insert => self.insert,
            Action::Update => self.update,
            Action::Delete => self.delete,
            Action::ManagePermissions => self.manage_permissions,
        }
    }

    /// A set that leaves every action unset.
    pub fn new() -> (r: PermissionSet)
        ensures
            forall|a: Action| r.spec_verdict(a) == None::<bool>,
    {
        PermissionSet { insert: None, update: None, delete: None, manage_permissions: None }
    }

    /// Sets the verdict for `action` to allow.
    pub fn allow(self, action: Action) -> (r: PermissionSet)
        ensures
            r.spec_verdict(action) == Some(true),
            forall|a: Action| a != action ==> r.spec_verdict(a) == self.spec_verdict(a),
    {
        self.set_verdict(action, Some(true))
    }

    /// Sets the verdict for `action` to deny.
    pub fn deny(self, action: Action) -> (r: PermissionSet)
        ensures
            r.spec_verdict(action) == Some(false),
            forall|a: Action| a != action ==> r.spec_verdict(a) == self.spec_verdict(a),
    {
        self.set_verdict(action, Some(false))
    }

    /// Clears the verdict for `action`.
    pub fn clear(self, action: Action) -> (r: PermissionSet)
        ensures
            r.spec_verdict(action) == None::<bool>,
            forall|a: Action| a != action ==> r.spec_verdict(a) == self.spec_verdict(a),
    {
        self.set_verdict(action, None)
    }

    fn set_verdict(self, action: Action, verdict: Option<bool>) -> (r: PermissionSet)
        ensures
            r.spec_verdict(action) == verdict,
            forall|a: Action| a != action ==> r.spec_verdict(a) == self.spec_verdict(a),
    {
        let mut r = self;
        match action {
            Action::Insert => r.insert = verdict,
            Action::Update => r.update = verdict,
            Action::Delete => r.delete = verdict,
            Action::ManagePermissions => r.manage_permissions = verdict,
        }
        r
    }

    /// Verdict this set gives for one action, as executable code.
    pub fn is_allowed(&self, action: Action) -> (r: Option<bool>)
        ensures
            r == self.spec_verdict(action),
    {
        match action {
            Action::Insert => self.insert,
            Action::Update => self.update,
            Action::Delete => self.delete,
            Action::ManagePermissions => self.manage_permissions,
        }
    }
}

/// One entry's stored payload: content bytes and the entry's version.
/// A deleted entry persists as a tombstone: empty content at the version
/// asserted by the delete.
#[derive(Clone, Debug, PartialEq, Eq)]
pub struct Value {
    pub content: Vec<u8>,
    pub entry_version: u64,
}

/// Spec-level image of a `Value`.
#[verifier::ext_equal]
pub ghost struct ValueV {
    pub content: Seq<u8>,
    pub entry_version: u64,
}

impl View for Value {
    type V = ValueV;

    open spec fn view(&self) -> ValueV {
        ValueV { content: self.content@, entry_version: self.entry_version }
    }
}

impl ValueV {
    /// A tombstone is an entry whose content is empty.
    pub open spec fn is_tombstone(self) -> bool {
        self.content.len() == 0
    }
}

impl Value {
    /// Copies the value.
    pub fn duplicate(&self) -> (r: Value)
        ensures
            r@ == self@,
    {
        Value { content: clone_bytes(&self.content), entry_version: self.entry_version }
    }
}

/// One requested change to one entry of a mutable object.
#[derive(Clone, Debug, PartialEq, Eq)]
pub enum EntryAction {
    /// Insert a fresh entry, or revive a tombstone, at the given value.
    Ins(Value),
    /// Replace a live entry with the given value.
    Update(Value),
    /// Delete a live entry, leaving a tombstone at the given version.
    Del(u64),
}

/// Spec-level image of an `EntryAction`.
pub ghost enum EntryActionV {
    Ins(ValueV),
    Update(ValueV),
    Del(u64),
}

impl View for EntryAction {
    type V = EntryActionV;

    open spec fn view(&self) -> EntryActionV {
        match *self {
            EntryAction::Ins(v) => EntryActionV::Ins(v@),
            EntryAction::Update(v) => EntryActionV::Update(v@),
            EntryAction::Del(n) => EntryActionV::Del(n),
        }
    }
}

impl EntryActionV {
    /// The permission an action needs.
    pub open spec fn required_action(self) -> Action {
        match self {
            EntryActionV::Ins(_) => Action::Insert,
            EntryActionV::Update(_) => Action::Update,
            EntryActionV::Del(_) => Action::Delete,
        }
    }
}

/// An account's externally visible counters.
#[derive(Clone, Copy, Debug, PartialEq, Eq, Structural)]
pub struct AccountInfo {
    pub mutations_done: u64,
    pub mutations_available: u64,
}

/// Kind of an access filter on an appendable list: a blacklist admits every
/// key but the listed ones, a whitelist only the listed ones.
#[derive(Clone, Copy, Debug, PartialEq, Eq, Structural)]
pub enum FilterType {
    BlackList,
    WhiteList,
}

} // verus!

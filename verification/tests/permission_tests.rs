//! Permission behaviour: owner overrides, per-user grants, permission-map
//! versioning, lookup precedence, and the session helper.

use mock_vault::hashing::name_of_bytes;
use mock_vault::mdata::{Entry, MutableData};
use mock_vault::routing::{create_app, Event, Response, Routing};
use mock_vault::types::{Action, Authority, ClientError, EntryAction, MessageId, PermissionSet,
    PublicKey, User, Value, XorName};
use mock_vault::{DEFAULT_MAX_MUTATIONS, TYPE_TAG_SESSION_PACKET};

fn setup() -> (Routing, PublicKey) {
    let mut routing = Routing::new();
    match routing.next_event() {
        Some(Event::Connected) => {}
        e => panic!("unexpected event {:?}", e),
    }
    (routing, PublicKey::random())
}

fn next_response(routing: &mut Routing) -> Response {
    match routing.next_event() {
        Some(Event::Response { response }) => response,
        e => panic!("unexpected event {:?}", e),
    }
}

fn create_account(routing: &mut Routing, owner_key: PublicKey) -> Authority {
    let account_name = name_of_bytes(&owner_key.0);
    let account_data = MutableData::new(
        account_name,
        TYPE_TAG_SESSION_PACKET,
        Vec::new(),
        Vec::new(),
        vec![owner_key],
    )
    .unwrap();
    let msg_id = MessageId::new();
    routing
        .put_mdata(
            Authority::ClientManager(account_name),
            account_data,
            msg_id,
            owner_key,
        )
        .unwrap();
    match next_response(routing) {
        Response::PutMData { res, msg_id: m } => {
            assert_eq!(m, msg_id);
            res.unwrap();
        }
        r => panic!("unexpected response {:?}", r),
    }
    Authority::ClientManager(account_name)
}

fn random_vec(len: usize) -> Vec<u8> {
    (0..len).map(|_| rand::random::<u8>()).collect()
}

fn expect_mutate(routing: &mut Routing, msg_id: MessageId) -> Result<(), ClientError> {
    match next_response(routing) {
        Response::MutateMDataEntries { res, msg_id: m } => {
            assert_eq!(m, msg_id);
            res
        }
        r => panic!("unexpected response {:?}", r),
    }
}

fn expect_set_perms(routing: &mut Routing, msg_id: MessageId) -> Result<(), ClientError> {
    match next_response(routing) {
        Response::SetMDataUserPermissions { res, msg_id: m } => {
            assert_eq!(m, msg_id);
            res
        }
        r => panic!("unexpected response {:?}", r),
    }
}

fn mutate(
    routing: &mut Routing,
    dst: Authority,
    name: XorName,
    tag: u64,
    actions: Vec<(Vec<u8>, EntryAction)>,
    requester: PublicKey,
) -> Result<(), ClientError> {
    let msg_id = MessageId::new();
    routing
        .mutate_mdata_entries(dst, name, tag, actions, msg_id, requester)
        .unwrap();
    expect_mutate(routing, msg_id)
}

#[test]
fn mutable_data_permissions() {
    let (mut routing, owner_key) = setup();
    let other_key = PublicKey::random();

    let client_mgr = create_account(&mut routing, owner_key);

    // Construct MutableData with some entries and empty permissions.
    let name = XorName::random();
    let tag = 1000u64;

    let key0 = b"key0";
    let value0_v0 = random_vec(10);

    let entries = vec![Entry {
        key: key0.to_vec(),
        value: Value { content: value0_v0, entry_version: 0 },
    }];

    let data = MutableData::new(name, tag, Vec::new(), entries, vec![owner_key]).unwrap();
    let nae_mgr = Authority::NaeManager(*data.name());

    // Put it to the network.
    let msg_id = MessageId::new();
    routing.put_mdata(client_mgr, data, msg_id, owner_key).unwrap();
    match next_response(&mut routing) {
        Response::PutMData { res, msg_id: m } => {
            assert_eq!(m, msg_id);
            res.unwrap();
        }
        r => panic!("unexpected response {:?}", r),
    }

    // ListMDataPermissions responds with empty collection.
    let msg_id = MessageId::new();
    routing.list_mdata_permissions(nae_mgr, name, tag, msg_id).unwrap();
    let permissions = match next_response(&mut routing) {
        Response::ListMDataPermissions { res, msg_id: m } => {
            assert_eq!(m, msg_id);
            res.unwrap()
        }
        r => panic!("unexpected response {:?}", r),
    };
    assert!(permissions.is_empty());

    // Owner can do anything by default.
    let value0_v1 = random_vec(10);
    let actions = vec![(
        key0.to_vec(),
        EntryAction::Update(Value { content: value0_v1, entry_version: 1 }),
    )];
    mutate(&mut routing, client_mgr, name, tag, actions, owner_key).unwrap();

    // Other users can't mutate any entry, by default.
    let value0_v2 = random_vec(10);
    let actions = vec![(
        key0.to_vec(),
        EntryAction::Update(Value { content: value0_v2.clone(), entry_version: 2 }),
    )];
    match mutate(&mut routing, client_mgr, name, tag, actions, other_key) {
        Err(ClientError::AccessDenied) => {}
        r => panic!("unexpected result {:?}", r),
    }

    // Grant insert permission for `other_key`.
    let perms = PermissionSet::new().allow(Action::Insert);

    let msg_id = MessageId::new();
    routing
        .set_mdata_user_permissions(
            client_mgr,
            name,
            tag,
            User::Key(other_key),
            perms,
            1,
            msg_id,
            owner_key,
        )
        .unwrap();
    expect_set_perms(&mut routing, msg_id).unwrap();

    // The version is bumped.
    let msg_id = MessageId::new();
    routing.get_mdata_version(nae_mgr, name, tag, msg_id).unwrap();
    let version = match next_response(&mut routing) {
        Response::GetMDataVersion { res, msg_id: m } => {
            assert_eq!(m, msg_id);
            res.unwrap()
        }
        r => panic!("unexpected response {:?}", r),
    };
    assert_eq!(version, 1);

    // `other_key` still can't update entries.
    let actions = vec![(
        key0.to_vec(),
        EntryAction::Update(Value { content: value0_v2.clone(), entry_version: 2 }),
    )];
    match mutate(&mut routing, client_mgr, name, tag, actions, other_key) {
        Err(ClientError::AccessDenied) => {}
        r => panic!("unexpected result {:?}", r),
    }

    // But they can insert new ones.
    let key1 = b"key1";
    let value1_v0 = random_vec(10);
    let actions = vec![(
        key1.to_vec(),
        EntryAction::Ins(Value { content: value1_v0, entry_version: 0 }),
    )];
    mutate(&mut routing, client_mgr, name, tag, actions, other_key).unwrap();

    // Attempt to modify permissions without proper version bump fails
    let perms = PermissionSet::new().allow(Action::Insert).allow(Action::Update);

    let msg_id = MessageId::new();
    routing
        .set_mdata_user_permissions(
            client_mgr,
            name,
            tag,
            User::Key(other_key),
            perms,
            1,
            msg_id,
            owner_key,
        )
        .unwrap();
    match expect_set_perms(&mut routing, msg_id) {
        Err(ClientError::InvalidSuccessor) => {}
        r => panic!("unexpected result {:?}", r),
    }

    // Modifying permissions with version bump succeeds.
    let perms = PermissionSet::new().allow(Action::Insert).allow(Action::Update);

    let msg_id = MessageId::new();
    routing
        .set_mdata_user_permissions(
            client_mgr,
            name,
            tag,
            User::Key(other_key),
            perms,
            2,
            msg_id,
            owner_key,
        )
        .unwrap();
    expect_set_perms(&mut routing, msg_id).unwrap();

    // `other_key` can now update entries.
    let actions = vec![(
        key0.to_vec(),
        EntryAction::Update(Value { content: value0_v2, entry_version: 2 }),
    )];
    mutate(&mut routing, client_mgr, name, tag, actions, other_key).unwrap();

    // Revoke all permissions from `other_key`.
    let msg_id = MessageId::new();
    routing
        .del_mdata_user_permissions(
            client_mgr,
            name,
            tag,
            User::Key(other_key),
            3,
            msg_id,
            owner_key,
        )
        .unwrap();
    match next_response(&mut routing) {
        Response::DelMDataUserPermissions { res, msg_id: m } => {
            assert_eq!(m, msg_id);
            res.unwrap();
        }
        r => panic!("unexpected response {:?}", r),
    }

    // `other_key` can no longer mutate the entries.
    let key2 = b"key2";
    let value2_v0 = random_vec(10);
    let actions = vec![(
        key2.to_vec(),
        EntryAction::Ins(Value { content: value2_v0, entry_version: 0 }),
    )];
    match mutate(&mut routing, client_mgr, name, tag, actions, other_key) {
        Err(ClientError::AccessDenied) => {}
        r => panic!("unexpected result {:?}", r),
    }
}

#[test]
fn user_permission_records() {
    let (mut routing, owner_key) = setup();
    let other_key = PublicKey::random();
    let client_mgr = create_account(&mut routing, owner_key);

    let name = XorName::random();
    let tag = 1000u64;
    let data = MutableData::new(name, tag, Vec::new(), Vec::new(), vec![owner_key]).unwrap();
    let nae_mgr = Authority::NaeManager(name);

    let msg_id = MessageId::new();
    routing.put_mdata(client_mgr, data, msg_id, owner_key).unwrap();
    match next_response(&mut routing) {
        Response::PutMData { res, msg_id: m } => {
            assert_eq!(m, msg_id);
            res.unwrap();
        }
        r => panic!("unexpected response {:?}", r),
    }

    // No record yet: listing and deleting fail with NoSuchKey.
    let msg_id = MessageId::new();
    routing
        .list_mdata_user_permissions(nae_mgr, name, tag, User::Key(other_key), msg_id)
        .unwrap();
    match next_response(&mut routing) {
        Response::ListMDataUserPermissions { res, msg_id: m } => {
            assert_eq!(m, msg_id);
            match res {
                Err(ClientError::NoSuchKey) => {}
                r => panic!("unexpected result {:?}", r),
            }
        }
        r => panic!("unexpected response {:?}", r),
    }

    let msg_id = MessageId::new();
    routing
        .del_mdata_user_permissions(client_mgr, name, tag, User::Key(other_key), 1, msg_id,
            owner_key)
        .unwrap();
    match next_response(&mut routing) {
        Response::DelMDataUserPermissions { res, msg_id: m } => {
            assert_eq!(m, msg_id);
            match res {
                Err(ClientError::NoSuchKey) => {}
                r => panic!("unexpected result {:?}", r),
            }
        }
        r => panic!("unexpected response {:?}", r),
    }

    // Store a record and read it back exactly.
    let perms = PermissionSet::new().allow(Action::Insert).deny(Action::Update);
    let msg_id = MessageId::new();
    routing
        .set_mdata_user_permissions(client_mgr, name, tag, User::Key(other_key), perms, 1,
            msg_id, owner_key)
        .unwrap();
    expect_set_perms(&mut routing, msg_id).unwrap();

    let msg_id = MessageId::new();
    routing
        .list_mdata_user_permissions(nae_mgr, name, tag, User::Key(other_key), msg_id)
        .unwrap();
    let got = match next_response(&mut routing) {
        Response::ListMDataUserPermissions { res, msg_id: m } => {
            assert_eq!(m, msg_id);
            res.unwrap()
        }
        r => panic!("unexpected response {:?}", r),
    };
    assert_eq!(got.is_allowed(Action::Insert), Some(true));
    assert_eq!(got.is_allowed(Action::Update), Some(false));
    assert_eq!(got.is_allowed(Action::Delete), None);
    assert_eq!(got.is_allowed(Action::ManagePermissions), None);
}

#[test]
fn explicit_key_wins_over_any_user() {
    let (mut routing, owner_key) = setup();
    let other_key = PublicKey::random();
    let client_mgr = create_account(&mut routing, owner_key);

    let name = XorName::random();
    let tag = 1000u64;
    let data = MutableData::new(name, tag, Vec::new(), Vec::new(), vec![owner_key]).unwrap();

    let msg_id = MessageId::new();
    routing.put_mdata(client_mgr, data, msg_id, owner_key).unwrap();
    match next_response(&mut routing) {
        Response::PutMData { res, msg_id: m } => {
            assert_eq!(m, msg_id);
            res.unwrap();
        }
        r => panic!("unexpected response {:?}", r),
    }

    // Deny inserts for everyone, but allow them for `other_key`.
    let any = PermissionSet::new().deny(Action::Insert);
    let msg_id = MessageId::new();
    routing
        .set_mdata_user_permissions(client_mgr, name, tag, User::AnyUser, any, 1, msg_id,
            owner_key)
        .unwrap();
    expect_set_perms(&mut routing, msg_id).unwrap();

    let explicit = PermissionSet::new().allow(Action::Insert);
    let msg_id = MessageId::new();
    routing
        .set_mdata_user_permissions(client_mgr, name, tag, User::Key(other_key), explicit, 2,
            msg_id, owner_key)
        .unwrap();
    expect_set_perms(&mut routing, msg_id).unwrap();

    // The explicit record decides for `other_key`.
    let actions = vec![(
        b"key0".to_vec(),
        EntryAction::Ins(Value { content: random_vec(10), entry_version: 0 }),
    )];
    mutate(&mut routing, client_mgr, name, tag, actions, other_key).unwrap();

    // A third key falls back to the AnyUser denial.
    let third_key = PublicKey::random();
    let actions = vec![(
        b"key1".to_vec(),
        EntryAction::Ins(Value { content: random_vec(10), entry_version: 0 }),
    )];
    match mutate(&mut routing, client_mgr, name, tag, actions, third_key) {
        Err(ClientError::AccessDenied) => {}
        r => panic!("unexpected result {:?}", r),
    }
}

#[test]
fn create_app_registers_account() {
    let mut app = create_app();

    // The queue holds the startup signal and the account-creation response.
    match app.routing.next_event() {
        Some(Event::Connected) => {}
        e => panic!("unexpected event {:?}", e),
    }
    match app.routing.next_event() {
        Some(Event::Response { response: Response::PutMData { res, .. } }) => {
            res.unwrap();
        }
        e => panic!("unexpected event {:?}", e),
    }

    // The session's account exists with a full quota.
    let msg_id = MessageId::new();
    app.routing.get_account_info(app.client_manager, msg_id).unwrap();
    match app.routing.next_event() {
        Some(Event::Response { response: Response::GetAccountInfo { res, msg_id: m } }) => {
            assert_eq!(m, msg_id);
            let info = res.unwrap();
            assert_eq!(info.mutations_done, 0);
            assert_eq!(info.mutations_available, DEFAULT_MAX_MUTATIONS);
        }
        e => panic!("unexpected event {:?}", e),
    }

    // Its name is derived from the owner key.
    assert_eq!(
        app.client_manager,
        Authority::ClientManager(name_of_bytes(&app.owner_key.0))
    );
}

#[test]
fn permission_set_verdicts() {
    let ps = PermissionSet::new();
    assert_eq!(ps.is_allowed(Action::Insert), None);
    assert_eq!(ps.is_allowed(Action::Update), None);
    assert_eq!(ps.is_allowed(Action::Delete), None);
    assert_eq!(ps.is_allowed(Action::ManagePermissions), None);

    let ps = ps.allow(Action::Insert).deny(Action::Delete);
    assert_eq!(ps.is_allowed(Action::Insert), Some(true));
    assert_eq!(ps.is_allowed(Action::Delete), Some(false));
    assert_eq!(ps.is_allowed(Action::Update), None);

    let ps = ps.clear(Action::Insert);
    assert_eq!(ps.is_allowed(Action::Insert), None);
    assert_eq!(ps.is_allowed(Action::Delete), Some(false));
}

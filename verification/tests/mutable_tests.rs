//! Mutable-object behaviour: creation, reads, entry mutations, per-entry
//! version discipline and atomic batches.

use mock_vault::hashing::name_of_bytes;
use mock_vault::mdata::{Entry, MutableData};
use mock_vault::routing::{Event, Response, Routing};
use mock_vault::types::{Authority, ClientError, EntryAction, MessageId, PublicKey, Value,
    XorName};
use mock_vault::TYPE_TAG_SESSION_PACKET;

fn setup() -> (Routing, PublicKey) {
    let mut routing = Routing::new();
    match routing.next_event() {
        Some(Event::Connected) => {}
        e => panic!("unexpected event {:?}", e),
    }
    (routing, PublicKey::random())
}

fn next_response(routing: &mut Routing) -> Response {
    match routing.next_event() {
        Some(Event::Response { response }) => response,
        e => panic!("unexpected event {:?}", e),
    }
}

fn create_account(routing: &mut Routing, owner_key: PublicKey) -> Authority {
    let account_name = name_of_bytes(&owner_key.0);
    let account_data = MutableData::new(
        account_name,
        TYPE_TAG_SESSION_PACKET,
        Vec::new(),
        Vec::new(),
        vec![owner_key],
    )
    .unwrap();
    let msg_id = MessageId::new();
    routing
        .put_mdata(
            Authority::ClientManager(account_name),
            account_data,
            msg_id,
            owner_key,
        )
        .unwrap();
    match next_response(routing) {
        Response::PutMData { res, msg_id: m } => {
            assert_eq!(m, msg_id);
            res.unwrap();
        }
        r => panic!("unexpected response {:?}", r),
    }
    Authority::ClientManager(account_name)
}

fn random_vec(len: usize) -> Vec<u8> {
    (0..len).map(|_| rand::random::<u8>()).collect()
}

fn expect_put_mdata(routing: &mut Routing, msg_id: MessageId) -> Result<(), ClientError> {
    match next_response(routing) {
        Response::PutMData { res, msg_id: m } => {
            assert_eq!(m, msg_id);
            res
        }
        r => panic!("unexpected response {:?}", r),
    }
}

fn expect_mutate(routing: &mut Routing, msg_id: MessageId) -> Result<(), ClientError> {
    match next_response(routing) {
        Response::MutateMDataEntries { res, msg_id: m } => {
            assert_eq!(m, msg_id);
            res
        }
        r => panic!("unexpected response {:?}", r),
    }
}

fn expect_version(routing: &mut Routing, msg_id: MessageId) -> Result<u64, ClientError> {
    match next_response(routing) {
        Response::GetMDataVersion { res, msg_id: m } => {
            assert_eq!(m, msg_id);
            res
        }
        r => panic!("unexpected response {:?}", r),
    }
}

fn expect_entries(routing: &mut Routing, msg_id: MessageId) -> Result<Vec<Entry>, ClientError> {
    match next_response(routing) {
        Response::ListMDataEntries { res, msg_id: m } => {
            assert_eq!(m, msg_id);
            res
        }
        r => panic!("unexpected response {:?}", r),
    }
}

fn get_version(routing: &mut Routing, dst: Authority, name: XorName, tag: u64) -> u64 {
    let msg_id = MessageId::new();
    routing.get_mdata_version(dst, name, tag, msg_id).unwrap();
    expect_version(routing, msg_id).unwrap()
}

fn list_entries(routing: &mut Routing, dst: Authority, name: XorName, tag: u64) -> Vec<Entry> {
    let msg_id = MessageId::new();
    routing.list_mdata_entries(dst, name, tag, msg_id).unwrap();
    expect_entries(routing, msg_id).unwrap()
}

fn lookup<'a>(entries: &'a [Entry], key: &[u8]) -> Option<&'a Value> {
    entries
        .iter()
        .find(|e| e.key.as_slice() == key)
        .map(|e| &e.value)
}

#[test]
fn mutable_data_basics() {
    let (mut routing, owner_key) = setup();

    // Create account
    let client_mgr = create_account(&mut routing, owner_key);

    // Construct MutableData
    let name = XorName::random();
    let tag = 1000u64;

    let data = MutableData::new(name, tag, Vec::new(), Vec::new(), vec![owner_key]).unwrap();
    let nae_mgr = Authority::NaeManager(*data.name());

    // Operations on non-existing MutableData should fail.
    let msg_id = MessageId::new();
    routing.get_mdata_version(nae_mgr, name, tag, msg_id).unwrap();
    match expect_version(&mut routing, msg_id) {
        Err(ClientError::NoSuchData) => {}
        r => panic!("unexpected result {:?}", r),
    }

    let msg_id = MessageId::new();
    routing.list_mdata_entries(nae_mgr, name, tag, msg_id).unwrap();
    match expect_entries(&mut routing, msg_id) {
        Err(ClientError::NoSuchData) => {}
        r => panic!("unexpected result {:?}", r),
    }

    // PutMData
    let msg_id = MessageId::new();
    routing.put_mdata(client_mgr, data, msg_id, owner_key).unwrap();
    expect_put_mdata(&mut routing, msg_id).unwrap();

    // GetMDataVersion should respond with 0
    let version = get_version(&mut routing, nae_mgr, name, tag);
    assert_eq!(version, 0);

    // ListMDataEntries, ListMDataKeys and ListMDataValues should all respond
    // with empty collections.
    let entries = list_entries(&mut routing, nae_mgr, name, tag);
    assert!(entries.is_empty());

    let msg_id = MessageId::new();
    routing.list_mdata_keys(nae_mgr, name, tag, msg_id).unwrap();
    let keys = match next_response(&mut routing) {
        Response::ListMDataKeys { res, msg_id: m } => {
            assert_eq!(m, msg_id);
            res.unwrap()
        }
        r => panic!("unexpected response {:?}", r),
    };
    assert!(keys.is_empty());

    let msg_id = MessageId::new();
    routing.list_mdata_values(nae_mgr, name, tag, msg_id).unwrap();
    let values = match next_response(&mut routing) {
        Response::ListMDataValues { res, msg_id: m } => {
            assert_eq!(m, msg_id);
            res.unwrap()
        }
        r => panic!("unexpected response {:?}", r),
    };
    assert!(values.is_empty());

    // Add couple of entries
    let key0 = b"key0";
    let key1 = b"key1";
    let value0_v0 = random_vec(10);
    let value1_v0 = random_vec(10);

    let actions = vec![
        (
            key0.to_vec(),
            EntryAction::Ins(Value { content: value0_v0.clone(), entry_version: 0 }),
        ),
        (
            key1.to_vec(),
            EntryAction::Ins(Value { content: value1_v0.clone(), entry_version: 0 }),
        ),
    ];

    let msg_id = MessageId::new();
    routing
        .mutate_mdata_entries(client_mgr, name, tag, actions, msg_id, owner_key)
        .unwrap();
    expect_mutate(&mut routing, msg_id).unwrap();

    // ListMDataEntries
    let entries = list_entries(&mut routing, nae_mgr, name, tag);
    assert_eq!(entries.len(), 2);

    let entry = lookup(&entries, &key0[..]).unwrap();
    assert_eq!(entry.content, value0_v0);
    assert_eq!(entry.entry_version, 0);

    let entry = lookup(&entries, &key1[..]).unwrap();
    assert_eq!(entry.content, value1_v0);
    assert_eq!(entry.entry_version, 0);

    // ListMDataKeys
    let msg_id = MessageId::new();
    routing.list_mdata_keys(nae_mgr, name, tag, msg_id).unwrap();
    let keys = match next_response(&mut routing) {
        Response::ListMDataKeys { res, msg_id: m } => {
            assert_eq!(m, msg_id);
            res.unwrap()
        }
        r => panic!("unexpected response {:?}", r),
    };
    assert_eq!(keys.len(), 2);
    assert!(keys.iter().any(|k| k.as_slice() == &key0[..]));
    assert!(keys.iter().any(|k| k.as_slice() == &key1[..]));

    // ListMDataValues
    let msg_id = MessageId::new();
    routing.list_mdata_values(nae_mgr, name, tag, msg_id).unwrap();
    let values = match next_response(&mut routing) {
        Response::ListMDataValues { res, msg_id: m } => {
            assert_eq!(m, msg_id);
            res.unwrap()
        }
        r => panic!("unexpected response {:?}", r),
    };
    assert_eq!(values.len(), 2);

    // GetMDataValue with existing key
    let msg_id = MessageId::new();
    routing
        .get_mdata_value(nae_mgr, name, tag, key0.to_vec(), msg_id)
        .unwrap();
    let value = match next_response(&mut routing) {
        Response::GetMDataValue { res, msg_id: m } => {
            assert_eq!(m, msg_id);
            res.unwrap()
        }
        r => panic!("unexpected response {:?}", r),
    };
    assert_eq!(value.content, value0_v0);
    assert_eq!(value.entry_version, 0);

    // GetMDataValue with non-existing key
    let key2 = b"key2";
    let msg_id = MessageId::new();
    routing
        .get_mdata_value(nae_mgr, name, tag, key2.to_vec(), msg_id)
        .unwrap();
    match next_response(&mut routing) {
        Response::GetMDataValue { res, msg_id: m } => {
            assert_eq!(m, msg_id);
            match res {
                Err(ClientError::NoSuchEntry) => {}
                r => panic!("unexpected result {:?}", r),
            }
        }
        r => panic!("unexpected response {:?}", r),
    }

    // Mutate the entries: insert, update and delete
    let value0_v1 = random_vec(10);
    let value2_v0 = random_vec(10);
    let actions = vec![
        (
            key0.to_vec(),
            EntryAction::Update(Value { content: value0_v1.clone(), entry_version: 1 }),
        ),
        (key1.to_vec(), EntryAction::Del(1)),
        (
            key2.to_vec(),
            EntryAction::Ins(Value { content: value2_v0.clone(), entry_version: 0 }),
        ),
    ];

    let msg_id = MessageId::new();
    routing
        .mutate_mdata_entries(client_mgr, name, tag, actions, msg_id, owner_key)
        .unwrap();
    expect_mutate(&mut routing, msg_id).unwrap();

    // ListMDataEntries should respond with modified entries
    let entries = list_entries(&mut routing, nae_mgr, name, tag);
    assert_eq!(entries.len(), 3);

    // Updated entry
    let entry = lookup(&entries, &key0[..]).unwrap();
    assert_eq!(entry.content, value0_v1);
    assert_eq!(entry.entry_version, 1);

    // Deleted entry
    let entry = lookup(&entries, &key1[..]).unwrap();
    assert!(entry.content.is_empty());
    assert_eq!(entry.entry_version, 1);

    // Inserted entry
    let entry = lookup(&entries, &key2[..]).unwrap();
    assert_eq!(entry.content, value2_v0);
    assert_eq!(entry.entry_version, 0);
}

#[test]
fn mutable_data_entry_versioning() {
    let (mut routing, owner_key) = setup();
    let client_mgr = create_account(&mut routing, owner_key);

    // Construct MutableData
    let name = XorName::random();
    let tag = 1000u64;

    let data = MutableData::new(name, tag, Vec::new(), Vec::new(), vec![owner_key]).unwrap();

    // PutMData
    let msg_id = MessageId::new();
    routing.put_mdata(client_mgr, data, msg_id, owner_key).unwrap();
    expect_put_mdata(&mut routing, msg_id).unwrap();

    // Insert a new entry
    let key = b"key0";
    let value_v0 = random_vec(10);
    let actions = vec![(
        key.to_vec(),
        EntryAction::Ins(Value { content: value_v0, entry_version: 0 }),
    )];

    let msg_id = MessageId::new();
    routing
        .mutate_mdata_entries(client_mgr, name, tag, actions, msg_id, owner_key)
        .unwrap();
    expect_mutate(&mut routing, msg_id).unwrap();

    // Attempt to update it without version bump fails.
    let value_v1 = random_vec(10);
    let actions = vec![(
        key.to_vec(),
        EntryAction::Update(Value { content: value_v1.clone(), entry_version: 0 }),
    )];

    let msg_id = MessageId::new();
    routing
        .mutate_mdata_entries(client_mgr, name, tag, actions, msg_id, owner_key)
        .unwrap();
    match expect_mutate(&mut routing, msg_id) {
        Err(ClientError::InvalidSuccessor) => {}
        r => panic!("unexpected result {:?}", r),
    }

    // Attempt to update it with incorrect version fails.
    let actions = vec![(
        key.to_vec(),
        EntryAction::Update(Value { content: value_v1.clone(), entry_version: 314159265 }),
    )];

    let msg_id = MessageId::new();
    routing
        .mutate_mdata_entries(client_mgr, name, tag, actions, msg_id, owner_key)
        .unwrap();
    match expect_mutate(&mut routing, msg_id) {
        Err(ClientError::InvalidSuccessor) => {}
        r => panic!("unexpected result {:?}", r),
    }

    // Update with correct version bump succeeds.
    let actions = vec![(
        key.to_vec(),
        EntryAction::Update(Value { content: value_v1.clone(), entry_version: 1 }),
    )];

    let msg_id = MessageId::new();
    routing
        .mutate_mdata_entries(client_mgr, name, tag, actions, msg_id, owner_key)
        .unwrap();
    expect_mutate(&mut routing, msg_id).unwrap();

    // Delete without version bump fails.
    let actions = vec![(key.to_vec(), EntryAction::Del(1))];

    let msg_id = MessageId::new();
    routing
        .mutate_mdata_entries(client_mgr, name, tag, actions, msg_id, owner_key)
        .unwrap();
    match expect_mutate(&mut routing, msg_id) {
        Err(ClientError::InvalidSuccessor) => {}
        r => panic!("unexpected result {:?}", r),
    }

    // Delete with correct version bump succeeds.
    let actions = vec![(key.to_vec(), EntryAction::Del(2))];

    let msg_id = MessageId::new();
    routing
        .mutate_mdata_entries(client_mgr, name, tag, actions, msg_id, owner_key)
        .unwrap();
    expect_mutate(&mut routing, msg_id).unwrap();
}

#[test]
fn entry_exists_and_tombstone() {
    let (mut routing, owner_key) = setup();
    let client_mgr = create_account(&mut routing, owner_key);

    let name = XorName::random();
    let tag = 1000u64;
    let data = MutableData::new(name, tag, Vec::new(), Vec::new(), vec![owner_key]).unwrap();
    let msg_id = MessageId::new();
    routing.put_mdata(client_mgr, data, msg_id, owner_key).unwrap();
    expect_put_mdata(&mut routing, msg_id).unwrap();

    // Insert a key.
    let key = b"key0";
    let actions = vec![(
        key.to_vec(),
        EntryAction::Ins(Value { content: random_vec(10), entry_version: 0 }),
    )];
    let msg_id = MessageId::new();
    routing
        .mutate_mdata_entries(client_mgr, name, tag, actions, msg_id, owner_key)
        .unwrap();
    expect_mutate(&mut routing, msg_id).unwrap();

    // Inserting a live key again fails: the entry exists.
    let actions = vec![(
        key.to_vec(),
        EntryAction::Ins(Value { content: random_vec(10), entry_version: 0 }),
    )];
    let msg_id = MessageId::new();
    routing
        .mutate_mdata_entries(client_mgr, name, tag, actions, msg_id, owner_key)
        .unwrap();
    match expect_mutate(&mut routing, msg_id) {
        Err(ClientError::EntryExists) => {}
        r => panic!("unexpected result {:?}", r),
    }

    // Update once, then delete: the entry stays as a tombstone at the
    // asserted version, and the object's version never moves.
    let actions = vec![(
        key.to_vec(),
        EntryAction::Update(Value { content: random_vec(10), entry_version: 1 }),
    )];
    let msg_id = MessageId::new();
    routing
        .mutate_mdata_entries(client_mgr, name, tag, actions, msg_id, owner_key)
        .unwrap();
    expect_mutate(&mut routing, msg_id).unwrap();

    let actions = vec![(key.to_vec(), EntryAction::Del(2))];
    let msg_id = MessageId::new();
    routing
        .mutate_mdata_entries(client_mgr, name, tag, actions, msg_id, owner_key)
        .unwrap();
    expect_mutate(&mut routing, msg_id).unwrap();

    let entries = list_entries(&mut routing, Authority::NaeManager(name), name, tag);
    let entry = lookup(&entries, &key[..]).unwrap();
    assert!(entry.content.is_empty());
    assert_eq!(entry.entry_version, 2);

    let version = get_version(&mut routing, Authority::NaeManager(name), name, tag);
    assert_eq!(version, 0);
}

#[test]
fn atomic_batch_failure() {
    let (mut routing, owner_key) = setup();
    let client_mgr = create_account(&mut routing, owner_key);

    let name = XorName::random();
    let tag = 1000u64;
    let value_a = random_vec(10);
    let entries = vec![Entry {
        key: b"a".to_vec(),
        value: Value { content: value_a.clone(), entry_version: 0 },
    }];
    let data = MutableData::new(name, tag, Vec::new(), entries, vec![owner_key]).unwrap();

    let msg_id = MessageId::new();
    routing.put_mdata(client_mgr, data, msg_id, owner_key).unwrap();
    expect_put_mdata(&mut routing, msg_id).unwrap();

    // A batch with one invalid action (a bad version on "a") fails whole.
    let actions = vec![
        (
            b"a".to_vec(),
            EntryAction::Update(Value { content: random_vec(10), entry_version: 5 }),
        ),
        (
            b"b".to_vec(),
            EntryAction::Ins(Value { content: random_vec(10), entry_version: 0 }),
        ),
    ];
    let msg_id = MessageId::new();
    routing
        .mutate_mdata_entries(client_mgr, name, tag, actions, msg_id, owner_key)
        .unwrap();
    match expect_mutate(&mut routing, msg_id) {
        Err(ClientError::InvalidSuccessor) => {}
        r => panic!("unexpected result {:?}", r),
    }

    // The object is exactly as before: "a" unchanged, "b" absent.
    let entries = list_entries(&mut routing, Authority::NaeManager(name), name, tag);
    assert_eq!(entries.len(), 1);
    let entry = lookup(&entries, b"a").unwrap();
    assert_eq!(entry.content, value_a);
    assert_eq!(entry.entry_version, 0);
    assert!(lookup(&entries, b"b").is_none());
}

#[test]
fn put_mdata_validation() {
    let (mut routing, owner_key) = setup();
    let client_mgr = create_account(&mut routing, owner_key);

    // An empty owner set is rejected at construction.
    match MutableData::new(XorName::random(), 1000, Vec::new(), Vec::new(), Vec::new()) {
        Err(ClientError::InvalidOwners) => {}
        r => panic!("unexpected result {:?}", r.map(|_| ())),
    }

    // A requester outside the owner set cannot store the object.
    let name = XorName::random();
    let other_key = PublicKey::random();
    let data = MutableData::new(name, 1000, Vec::new(), Vec::new(), vec![other_key]).unwrap();
    let msg_id = MessageId::new();
    routing.put_mdata(client_mgr, data, msg_id, owner_key).unwrap();
    match expect_put_mdata(&mut routing, msg_id) {
        Err(ClientError::InvalidOwners) => {}
        r => panic!("unexpected result {:?}", r),
    }

    // Storing the same name and tag twice is rejected.
    let data = MutableData::new(name, 1000, Vec::new(), Vec::new(), vec![owner_key]).unwrap();
    let msg_id = MessageId::new();
    routing
        .put_mdata(client_mgr, data.clone(), msg_id, owner_key)
        .unwrap();
    expect_put_mdata(&mut routing, msg_id).unwrap();

    let msg_id = MessageId::new();
    routing.put_mdata(client_mgr, data, msg_id, owner_key).unwrap();
    match expect_put_mdata(&mut routing, msg_id) {
        Err(ClientError::DataExists) => {}
        r => panic!("unexpected result {:?}", r),
    }
}

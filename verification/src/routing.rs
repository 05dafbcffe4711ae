//! The router / event pump: a typed request interface over the vault. Each
//! request bears a caller-chosen message id; the router runs it on the vault
//! and posts exactly one response event, carrying that id, to its outbound
//! queue. A `Connected` event is posted at construction.

use vstd::prelude::*;

use crate::idata::ImmutableData;
use crate::kv::distinct_keys;
use crate::mdata::{Entry, MutableData, action_pairs_of};
use crate::types::{AccountInfo, Authority, ClientError, EntryAction, MessageId, PermissionSet,
    PublicKey, User, Value, XorName};
use crate::vault::{Vault, VaultV, empty_vault, lists_entries_of, lists_keys_of,
    lists_permissions_of, lists_values_of, step_del_user_permissions, step_get_account_info,
    step_get_idata, step_get_mdata_version, step_get_value, step_list_entries,
    step_list_permissions, step_list_user_permissions, step_mutate_entries, step_put_idata,
    step_put_mdata, step_set_user_permissions, vault_inv};

verus! {

/// One typed response, named like its request, carrying the request's
/// message id and the operation's result.
#[derive(Debug)]
pub enum Response {
    GetAccountInfo { res: Result<AccountInfo, ClientError>, msg_id: MessageId },
    PutIData { res: Result<(), ClientError>, msg_id: MessageId },
    GetIData { res: Result<ImmutableData, ClientError>, msg_id: MessageId },
    PutMData { res: Result<(), ClientError>, msg_id: MessageId },
    GetMDataVersion { res: Result<u64, ClientError>, msg_id: MessageId },
    ListMDataEntries { res: Result<Vec<Entry>, ClientError>, msg_id: MessageId },
    ListMDataKeys { res: Result<Vec<Vec<u8>>, ClientError>, msg_id: MessageId },
    ListMDataValues { res: Result<Vec<Value>, ClientError>, msg_id: MessageId },
    GetMDataValue { res: Result<Value, ClientError>, msg_id: MessageId },
    MutateMDataEntries { res: Result<(), ClientError>, msg_id: MessageId },
    ListMDataPermissions { res: Result<Vec<(User, PermissionSet)>, ClientError>, msg_id: MessageId },
    ListMDataUserPermissions { res: Result<PermissionSet, ClientError>, msg_id: MessageId },
    SetMDataUserPermissions { res: Result<(), ClientError>, msg_id: MessageId },
    DelMDataUserPermissions { res: Result<(), ClientError>, msg_id: MessageId },
}

impl Response {
    /// The message id the response reflects.
    pub open spec fn spec_msg_id(self) -> MessageId {
        match self {
            Response::GetAccountInfo { msg_id, .. } => msg_id,
            Response::PutIData { msg_id, .. } => msg_id,
            Response::GetIData { msg_id, .. } => msg_id,
            Response::PutMData { msg_id, .. } => msg_id,
            Response::GetMDataVersion { msg_id, .. } => msg_id,
            Response::ListMDataEntries { msg_id, .. } => msg_id,
            Response::ListMDataKeys { msg_id, .. } => msg_id,
            Response::ListMDataValues { msg_id, .. } => msg_id,
            Response::GetMDataValue { msg_id, .. } => msg_id,
            Response::MutateMDataEntries { msg_id, .. } => msg_id,
            Response::ListMDataPermissions { msg_id, .. } => msg_id,
            Response::ListMDataUserPermissions { msg_id, .. } => msg_id,
            Response::SetMDataUserPermissions { msg_id, .. } => msg_id,
            Response::DelMDataUserPermissions { msg_id, .. } => msg_id,
        }
    }
}

/// What the router posts: the startup signal, then one response per request.
#[derive(Debug)]
pub enum Event {
    Connected,
    Response { response: Response },
}

/// Whether `ev` is a response event carrying `msg_id`.
pub open spec fn is_response_to(ev: Event, msg_id: MessageId) -> bool {
    match ev {
        Event::Response { response } => response.spec_msg_id() == msg_id,
        Event::Connected => false,
    }
}

/// Spec-level image of the router: the vault's view and the outbound queue.
#[verifier::ext_equal]
pub ghost struct RoutingV {
    pub vault: VaultV,
    pub events: Seq<Event>,
}

/// The response to `get_account_info`.
pub open spec fn responds_get_account_info(
    ev: Event,
    v: VaultV,
    dst: Authority,
    msg_id: MessageId,
) -> bool {
    match ev {
        Event::Response { response: Response::GetAccountInfo { res, msg_id: m } } => m == msg_id
            && res == step_get_account_info(v, dst),
        _ => false,
    }
}

/// The response to `put_idata`.
pub open spec fn responds_put_idata(
    ev: Event,
    v: VaultV,
    dst: Authority,
    content: Seq<u8>,
    msg_id: MessageId,
) -> bool {
    match ev {
        Event::Response { response: Response::PutIData { res, msg_id: m } } => m == msg_id && res
            == step_put_idata(v, dst, content).1,
        _ => false,
    }
}

/// The response to `get_idata`: on success the returned object carries the
/// stored content under the requested name.
pub open spec fn responds_get_idata(
    ev: Event,
    v: VaultV,
    dst: Authority,
    name: Seq<u8>,
    msg_id: MessageId,
) -> bool {
    match ev {
        Event::Response { response: Response::GetIData { res, msg_id: m } } => m == msg_id
            && (match (res, step_get_idata(v, dst, name)) {
            (Ok(d), Ok(content)) => d@.content == content && d@.name == name,
            (Err(e1), Err(e2)) => e1 == e2,
            _ => false,
        }),
        _ => false,
    }
}

/// The response to `put_mdata`.
pub open spec fn responds_put_mdata(
    ev: Event,
    v: VaultV,
    dst: Authority,
    data: crate::mdata::MdV,
    requester: Seq<u8>,
    msg_id: MessageId,
) -> bool {
    match ev {
        Event::Response { response: Response::PutMData { res, msg_id: m } } => m == msg_id && res
            == step_put_mdata(v, dst, data, requester).1,
        _ => false,
    }
}

/// The response to `get_mdata_version`.
pub open spec fn responds_get_mdata_version(
    ev: Event,
    v: VaultV,
    dst: Authority,
    name: Seq<u8>,
    tag: u64,
    msg_id: MessageId,
) -> bool {
    match ev {
        Event::Response { response: Response::GetMDataVersion { res, msg_id: m } } => m == msg_id
            && res == step_get_mdata_version(v, dst, name, tag),
        _ => false,
    }
}

/// The response to `list_mdata_entries`: a faithful listing of the object's
/// entry map.
pub open spec fn responds_list_mdata_entries(
    ev: Event,
    v: VaultV,
    dst: Authority,
    name: Seq<u8>,
    tag: u64,
    msg_id: MessageId,
) -> bool {
    match ev {
        Event::Response { response: Response::ListMDataEntries { res, msg_id: m } } => m == msg_id
            && (match (res, step_list_entries(v, dst, name, tag)) {
            (Ok(es), Ok(entries)) => lists_entries_of(es@, entries),
            (Err(e1), Err(e2)) => e1 == e2,
            _ => false,
        }),
        _ => false,
    }
}

/// The response to `list_mdata_keys`.
pub open spec fn responds_list_mdata_keys(
    ev: Event,
    v: VaultV,
    dst: Authority,
    name: Seq<u8>,
    tag: u64,
    msg_id: MessageId,
) -> bool {
    match ev {
        Event::Response { response: Response::ListMDataKeys { res, msg_id: m } } => m == msg_id
            && (match (res, step_list_entries(v, dst, name, tag)) {
            (Ok(ks), Ok(entries)) => lists_keys_of(ks@, entries),
            (Err(e1), Err(e2)) => e1 == e2,
            _ => false,
        }),
        _ => false,
    }
}

/// The response to `list_mdata_values`.
pub open spec fn responds_list_mdata_values(
    ev: Event,
    v: VaultV,
    dst: Authority,
    name: Seq<u8>,
    tag: u64,
    msg_id: MessageId,
) -> bool {
    match ev {
        Event::Response { response: Response::ListMDataValues { res, msg_id: m } } => m == msg_id
            && (match (res, step_list_entries(v, dst, name, tag)) {
            (Ok(vs), Ok(entries)) => lists_values_of(vs@, entries),
            (Err(e1), Err(e2)) => e1 == e2,
            _ => false,
        }),
        _ => false,
    }
}

/// The response to `get_mdata_value`.
pub open spec fn responds_get_mdata_value(
    ev: Event,
    v: VaultV,
    dst: Authority,
    name: Seq<u8>,
    tag: u64,
    key: Seq<u8>,
    msg_id: MessageId,
) -> bool {
    match ev {
        Event::Response { response: Response::GetMDataValue { res, msg_id: m } } => m == msg_id
            && (match (res, step_get_value(v, dst, name, tag, key)) {
            (Ok(val), Ok(vv)) => val@ == vv,
            (Err(e1), Err(e2)) => e1 == e2,
            _ => false,
        }),
        _ => false,
    }
}

/// The response to `mutate_mdata_entries`.
pub open spec fn responds_mutate_mdata_entries(
    ev: Event,
    v: VaultV,
    dst: Authority,
    name: Seq<u8>,
    tag: u64,
    actions: Seq<(Seq<u8>, crate::types::EntryActionV)>,
    requester: Seq<u8>,
    msg_id: MessageId,
) -> bool {
    match ev {
        Event::Response { response: Response::MutateMDataEntries { res, msg_id: m } } => m
            == msg_id && res == step_mutate_entries(v, dst, name, tag, actions, requester).1,
        _ => false,
    }
}

/// The response to `list_mdata_permissions`.
pub open spec fn responds_list_mdata_permissions(
    ev: Event,
    v: VaultV,
    dst: Authority,
    name: Seq<u8>,
    tag: u64,
    msg_id: MessageId,
) -> bool {
    match ev {
        Event::Response { response: Response::ListMDataPermissions { res, msg_id: m } } => m
            == msg_id && (match (res, step_list_permissions(v, dst, name, tag)) {
            (Ok(ps), Ok(permissions)) => lists_permissions_of(ps@, permissions),
            (Err(e1), Err(e2)) => e1 == e2,
            _ => false,
        }),
        _ => false,
    }
}

/// The response to `list_mdata_user_permissions`.
pub open spec fn responds_list_mdata_user_permissions(
    ev: Event,
    v: VaultV,
    dst: Authority,
    name: Seq<u8>,
    tag: u64,
    user: crate::types::UserV,
    msg_id: MessageId,
) -> bool {
    match ev {
        Event::Response { response: Response::ListMDataUserPermissions { res, msg_id: m } } => m
            == msg_id && res == step_list_user_permissions(v, dst, name, tag, user),
        _ => false,
    }
}

/// The response to `set_mdata_user_permissions`.
pub open spec fn responds_set_mdata_user_permissions(
    ev: Event,
    v: VaultV,
    dst: Authority,
    name: Seq<u8>,
    tag: u64,
    user: crate::types::UserV,
    permissions: PermissionSet,
    version: u64,
    requester: Seq<u8>,
    msg_id: MessageId,
) -> bool {
    match ev {
        Event::Response { response: Response::SetMDataUserPermissions { res, msg_id: m } } => m
            == msg_id && res == step_set_user_permissions(v, dst, name, tag, user, permissions,
            version, requester).1,
        _ => false,
    }
}

/// The response to `del_mdata_user_permissions`.
pub open spec fn responds_del_mdata_user_permissions(
    ev: Event,
    v: VaultV,
    dst: Authority,
    name: Seq<u8>,
    tag: u64,
    user: crate::types::UserV,
    version: u64,
    requester: Seq<u8>,
    msg_id: MessageId,
) -> bool {
    match ev {
        Event::Response { response: Response::DelMDataUserPermissions { res, msg_id: m } } => m
            == msg_id && res == step_del_user_permissions(v, dst, name, tag, user, version,
            requester).1,
        _ => false,
    }
}

/// The router: the vault it owns and the outbound event queue. Requests run
/// synchronously on the caller's thread; responses are posted in request
/// order.
pub struct Routing {
    vault: Vault,
    events: Vec<Event>,
}

impl View for Routing {
    type V = RoutingV;

    closed spec fn view(&self) -> RoutingV {
        RoutingV { vault: self.vault@, events: self.events@ }
    }
}

impl Routing {
    /// Well-formedness of the owned vault.
    pub closed spec fn wf(self) -> bool {
        self.vault.wf()
    }

    /// A well-formed router's vault satisfies the state invariant.
    pub proof fn lemma_wf_inv(self)
        requires
            self.wf(),
        ensures
            vault_inv(self@.vault),
    {
    }

    /// A fresh router over an empty vault; posts `Connected`.
    pub fn new() -> (r: Routing)
        ensures
            r.wf(),
            r@.vault == empty_vault(),
            r@.events =~= seq![Event::Connected],
    {
        let vault = Vault::new();
        let mut events: Vec<Event> = Vec::new();
        events.push(Event::Connected);
        Routing { vault, events }
    }

    /// Takes the oldest event off the queue.
    pub fn next_event(&mut self) -> (r: Option<Event>)
        ensures
            final(self).wf() == old(self).wf(),
            match r {
                Some(ev) => old(self)@.events.len() > 0 && ev == old(self)@.events[0]
                    && final(self)@ == (RoutingV {
                    events: old(self)@.events.drop_first(),
                    ..old(self)@
                }),
                None => old(self)@.events.len() == 0 && final(self)@ == old(self)@,
            },
    {
        if self.events.len() == 0 {
            return None;
        }
        let ev = self.events.remove(0);
        proof {
            assert(self.events@ =~= old(self).events@.drop_first());
            assert(self@ =~= (RoutingV { events: old(self)@.events.drop_first(), ..old(self)@ }));
        }
        Some(ev)
    }

    /// Requests the counters of the account `dst` names.
    pub fn get_account_info(&mut self, dst: Authority, msg_id: MessageId) -> (r: Result<
        (),
        ClientError,
    >)
        requires
            old(self).wf(),
        ensures
            final(self).wf(),
            r is Ok,
            final(self)@.vault == old(self)@.vault,
            final(self)@.events == old(self)@.events.push(final(self)@.events.last()),
            is_response_to(final(self)@.events.last(), msg_id),
            responds_get_account_info(final(self)@.events.last(), old(self)@.vault, dst, msg_id),
    {
        let res = self.vault.get_account_info(dst);
        self.events.push(Event::Response { response: Response::GetAccountInfo { res, msg_id } });
        Ok(())
    }

    /// Requests storing a blob.
    pub fn put_idata(&mut self, dst: Authority, data: ImmutableData, msg_id: MessageId) -> (r:
        Result<(), ClientError>)
        requires
            old(self).wf(),
            data.wf(),
        ensures
            final(self).wf(),
            r is Ok,
            final(self)@.vault == step_put_idata(old(self)@.vault, dst, data@.content).0,
            final(self)@.events == old(self)@.events.push(final(self)@.events.last()),
            is_response_to(final(self)@.events.last(), msg_id),
            responds_put_idata(final(self)@.events.last(), old(self)@.vault, dst, data@.content,
                msg_id),
    {
        let res = self.vault.put_idata(dst, data);
        self.events.push(Event::Response { response: Response::PutIData { res, msg_id } });
        Ok(())
    }

    /// Requests the blob stored under `name`.
    pub fn get_idata(&mut self, dst: Authority, name: XorName, msg_id: MessageId) -> (r: Result<
        (),
        ClientError,
    >)
        requires
            old(self).wf(),
        ensures
            final(self).wf(),
            r is Ok,
            final(self)@.vault == old(self)@.vault,
            final(self)@.events == old(self)@.events.push(final(self)@.events.last()),
            is_response_to(final(self)@.events.last(), msg_id),
            responds_get_idata(final(self)@.events.last(), old(self)@.vault, dst, name@, msg_id),
    {
        let res = self.vault.get_idata(dst, &name);
        self.events.push(Event::Response { response: Response::GetIData { res, msg_id } });
        Ok(())
    }

    /// Requests storing a mutable object.
    pub fn put_mdata(
        &mut self,
        dst: Authority,
        data: MutableData,
        msg_id: MessageId,
        requester: PublicKey,
    ) -> (r: Result<(), ClientError>)
        requires
            old(self).wf(),
            data.wf(),
        ensures
            final(self).wf(),
            r is Ok,
            final(self)@.vault == step_put_mdata(old(self)@.vault, dst, data@, requester@).0,
            final(self)@.events == old(self)@.events.push(final(self)@.events.last()),
            is_response_to(final(self)@.events.last(), msg_id),
            responds_put_mdata(final(self)@.events.last(), old(self)@.vault, dst, data@,
                requester@, msg_id),
    {
        let res = self.vault.put_mdata(dst, data, &requester);
        self.events.push(Event::Response { response: Response::PutMData { res, msg_id } });
        Ok(())
    }

    /// Requests the version of a mutable object.
    pub fn get_mdata_version(&mut self, dst: Authority, name: XorName, tag: u64, msg_id: MessageId)
        -> (r: Result<(), ClientError>)
        requires
            old(self).wf(),
        ensures
            final(self).wf(),
            r is Ok,
            final(self)@.vault == old(self)@.vault,
            final(self)@.events == old(self)@.events.push(final(self)@.events.last()),
            is_response_to(final(self)@.events.last(), msg_id),
            responds_get_mdata_version(final(self)@.events.last(), old(self)@.vault, dst, name@,
                tag, msg_id),
    {
        let res = self.vault.get_mdata_version(dst, &name, tag);
        self.events.push(Event::Response { response: Response::GetMDataVersion { res, msg_id } });
        Ok(())
    }

    /// Requests all entries of a mutable object.
    pub fn list_mdata_entries(&mut self, dst: Authority, name: XorName, tag: u64, msg_id: MessageId)
        -> (r: Result<(), ClientError>)
        requires
            old(self).wf(),
        ensures
            final(self).wf(),
            r is Ok,
            final(self)@.vault == old(self)@.vault,
            final(self)@.events == old(self)@.events.push(final(self)@.events.last()),
            is_response_to(final(self)@.events.last(), msg_id),
            responds_list_mdata_entries(final(self)@.events.last(), old(self)@.vault, dst, name@,
                tag, msg_id),
    {
        let res = self.vault.list_mdata_entries(dst, &name, tag);
        self.events.push(Event::Response { response: Response::ListMDataEntries { res, msg_id } });
        Ok(())
    }

    /// Requests all entry keys of a mutable object.
    pub fn list_mdata_keys(&mut self, dst: Authority, name: XorName, tag: u64, msg_id: MessageId)
        -> (r: Result<(), ClientError>)
        requires
            old(self).wf(),
        ensures
            final(self).wf(),
            r is Ok,
            final(self)@.vault == old(self)@.vault,
            final(self)@.events == old(self)@.events.push(final(self)@.events.last()),
            is_response_to(final(self)@.events.last(), msg_id),
            responds_list_mdata_keys(final(self)@.events.last(), old(self)@.vault, dst, name@, tag,
                msg_id),
    {
        let res = self.vault.list_mdata_keys(dst, &name, tag);
        self.events.push(Event::Response { response: Response::ListMDataKeys { res, msg_id } });
        Ok(())
    }

    /// Requests all entry values of a mutable object.
    pub fn list_mdata_values(&mut self, dst: Authority, name: XorName, tag: u64, msg_id: MessageId)
        -> (r: Result<(), ClientError>)
        requires
            old(self).wf(),
        ensures
            final(self).wf(),
            r is Ok,
            final(self)@.vault == old(self)@.vault,
            final(self)@.events == old(self)@.events.push(final(self)@.events.last()),
            is_response_to(final(self)@.events.last(), msg_id),
            responds_list_mdata_values(final(self)@.events.last(), old(self)@.vault, dst, name@,
                tag, msg_id),
    {
        let res = self.vault.list_mdata_values(dst, &name, tag);
        self.events.push(Event::Response { response: Response::ListMDataValues { res, msg_id } });
        Ok(())
    }

    /// Requests one entry value of a mutable object.
    pub fn get_mdata_value(
        &mut self,
        dst: Authority,
        name: XorName,
        tag: u64,
        key: Vec<u8>,
        msg_id: MessageId,
    ) -> (r: Result<(), ClientError>)
        requires
            old(self).wf(),
        ensures
            final(self).wf(),
            r is Ok,
            final(self)@.vault == old(self)@.vault,
            final(self)@.events == old(self)@.events.push(final(self)@.events.last()),
            is_response_to(final(self)@.events.last(), msg_id),
            responds_get_mdata_value(final(self)@.events.last(), old(self)@.vault, dst, name@, tag,
                key@, msg_id),
    {
        let res = self.vault.get_mdata_value(dst, &name, tag, &key);
        self.events.push(Event::Response { response: Response::GetMDataValue { res, msg_id } });
        Ok(())
    }

    /// Requests an atomic batch of entry mutations.
    pub fn mutate_mdata_entries(
        &mut self,
        dst: Authority,
        name: XorName,
        tag: u64,
        actions: Vec<(Vec<u8>, EntryAction)>,
        msg_id: MessageId,
        requester: PublicKey,
    ) -> (r: Result<(), ClientError>)
        requires
            old(self).wf(),
            distinct_keys(action_pairs_of(actions@)),
        ensures
            final(self).wf(),
            r is Ok,
            final(self)@.vault == step_mutate_entries(old(self)@.vault, dst, name@, tag,
                action_pairs_of(actions@), requester@).0,
            final(self)@.events == old(self)@.events.push(final(self)@.events.last()),
            is_response_to(final(self)@.events.last(), msg_id),
            responds_mutate_mdata_entries(final(self)@.events.last(), old(self)@.vault, dst, name@,
                tag, action_pairs_of(actions@), requester@, msg_id),
    {
        let res = self.vault.mutate_mdata_entries(dst, &name, tag, &actions, &requester);
        self.events.push(Event::Response { response: Response::MutateMDataEntries { res, msg_id } });
        Ok(())
    }

    /// Requests all permission records of a mutable object.
    pub fn list_mdata_permissions(
        &mut self,
        dst: Authority,
        name: XorName,
        tag: u64,
        msg_id: MessageId,
    ) -> (r: Result<(), ClientError>)
        requires
            old(self).wf(),
        ensures
            final(self).wf(),
            r is Ok,
            final(self)@.vault == old(self)@.vault,
            final(self)@.events == old(self)@.events.push(final(self)@.events.last()),
            is_response_to(final(self)@.events.last(), msg_id),
            responds_list_mdata_permissions(final(self)@.events.last(), old(self)@.vault, dst,
                name@, tag, msg_id),
    {
        let res = self.vault.list_mdata_permissions(dst, &name, tag);
        self.events.push(Event::Response {
            response: Response::ListMDataPermissions { res, msg_id },
        });
        Ok(())
    }

    /// Requests the permission record of one user.
    pub fn list_mdata_user_permissions(
        &mut self,
        dst: Authority,
        name: XorName,
        tag: u64,
        user: User,
        msg_id: MessageId,
    ) -> (r: Result<(), ClientError>)
        requires
            old(self).wf(),
        ensures
            final(self).wf(),
            r is Ok,
            final(self)@.vault == old(self)@.vault,
            final(self)@.events == old(self)@.events.push(final(self)@.events.last()),
            is_response_to(final(self)@.events.last(), msg_id),
            responds_list_mdata_user_permissions(final(self)@.events.last(), old(self)@.vault, dst,
                name@, tag, user@, msg_id),
    {
        let res = self.vault.list_mdata_user_permissions(dst, &name, tag, &user);
        self.events.push(Event::Response {
            response: Response::ListMDataUserPermissions { res, msg_id },
        });
        Ok(())
    }

    /// Requests storing a permission record.
    pub fn set_mdata_user_permissions(
        &mut self,
        dst: Authority,
        name: XorName,
        tag: u64,
        user: User,
        permissions: PermissionSet,
        version: u64,
        msg_id: MessageId,
        requester: PublicKey,
    ) -> (r: Result<(), ClientError>)
        requires
            old(self).wf(),
        ensures
            final(self).wf(),
            r is Ok,
            final(self)@.vault == step_set_user_permissions(old(self)@.vault, dst, name@, tag,
                user@, permissions, version, requester@).0,
            final(self)@.events == old(self)@.events.push(final(self)@.events.last()),
            is_response_to(final(self)@.events.last(), msg_id),
            responds_set_mdata_user_permissions(final(self)@.events.last(), old(self)@.vault, dst,
                name@, tag, user@, permissions, version, requester@, msg_id),
    {
        let res = self.vault.set_mdata_user_permissions(dst, &name, tag, &user, permissions,
            version, &requester);
        self.events.push(Event::Response {
            response: Response::SetMDataUserPermissions { res, msg_id },
        });
        Ok(())
    }

    /// Requests removing a permission record.
    pub fn del_mdata_user_permissions(
        &mut self,
        dst: Authority,
        name: XorName,
        tag: u64,
        user: User,
        version: u64,
        msg_id: MessageId,
        requester: PublicKey,
    ) -> (r: Result<(), ClientError>)
        requires
            old(self).wf(),
        ensures
            final(self).wf(),
            r is Ok,
            final(self)@.vault == step_del_user_permissions(old(self)@.vault, dst, name@, tag,
                user@, version, requester@).0,
            final(self)@.events == old(self)@.events.push(final(self)@.events.last()),
            is_response_to(final(self)@.events.last(), msg_id),
            responds_del_mdata_user_permissions(final(self)@.events.last(), old(self)@.vault, dst,
                name@, tag, user@, version, requester@, msg_id),
    {
        let res = self.vault.del_mdata_user_permissions(dst, &name, tag, &user, version,
            &requester);
        self.events.push(Event::Response {
            response: Response::DelMDataUserPermissions { res, msg_id },
        });
        Ok(())
    }
}

/// A client session on a fresh mock network: the router, the session's
/// signing identity, and the `ClientManager` authority of its account.
pub struct App {
    pub routing: Routing,
    pub owner_key: PublicKey,
    pub client_manager: Authority,
}

/// Creates a random app: a fresh router whose vault holds one account,
/// registered by putting the session packet under the key's account name.
pub fn create_app() -> (a: App)
    ensures
        a.routing.wf(),
        a.client_manager.is_client_manager(),
        a.client_manager.spec_name() == crate::hashing::hash_of(a.owner_key@),
        a.routing@.vault.accounts.contains_key(crate::hashing::hash_of(a.owner_key@)),
        a.routing@.vault.accounts[crate::hashing::hash_of(a.owner_key@)]
            == (crate::account::AccountV {
            owner_key: a.owner_key@,
            mutations_done: 0,
            mutations_available: crate::DEFAULT_MAX_MUTATIONS,
        }),
        a.routing@.vault.mdata.contains_key((crate::hashing::hash_of(a.owner_key@),
            crate::TYPE_TAG_SESSION_PACKET)),
        a.routing@.events.len() == 2,
{
    let owner_key = PublicKey::random();
    let account_name = crate::hashing::name_of_bytes(owner_key.0.as_slice());
    let mut routing = Routing::new();
    let mut owners: Vec<PublicKey> = Vec::new();
    owners.push(owner_key);
    let data = match MutableData::new(
        account_name,
        crate::TYPE_TAG_SESSION_PACKET,
        Vec::new(),
        Vec::new(),
        owners,
    ) {
        Ok(d) => d,
        Err(_) => vstd::pervasive::unreached(),
    };
    proof {
        assert(data@.owners.contains(owner_key@)) by {
            assert(crate::mdata::owner_keys_of(seq![owner_key])[0] == owner_key@);
            assert(crate::mdata::owner_keys_of(seq![owner_key]).contains(owner_key@));
        }
    }
    let msg_id = MessageId::new();
    let res = routing.put_mdata(
        Authority::ClientManager(account_name),
        data,
        msg_id,
        owner_key,
    );
    proof {
        assert(res is Ok);
    }
    App { routing, owner_key, client_manager: Authority::ClientManager(account_name) }
}

} // verus!

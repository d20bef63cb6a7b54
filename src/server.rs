use vstd::prelude::*;

use std::collections::HashMap;

use crate::acse::{AareApdu, AareModel, AarqApdu, AarqModel, ArlreApdu, ArlrqApdu};
use crate::association_ln::{AssociationLN, ObjectListEntry};
use crate::cosem::{same_logical_name, CosemObjectAttributeId, CosemObjectMethodId};
use crate::cosem_object::{
    AttributeAccessDescriptor, MethodAccessDescriptor, attribute_mode_in, attribute_operation_allowed, method_operation_allowed, method_permitted,
    mode_permits, AttributeOperation, CosemObject,
};
use crate::error::DlmsError;
use crate::hdlc::HdlcFrame;
use crate::negotiation::{association_ln_spec, bytes_equal, diagnostic_code, InitiateValidationError, lls_mechanism_spec, negotiate_initiate_response, negotiation_outcome, AssociationContext, ServerError, CHALLENGE_LEN, CONFIGURATOR_CLIENT_SAP, METER_READER_CLIENT_SAP, PUBLIC_CLIENT_SAP};
use crate::pdu::{
    ActionRequest, ActionRequestNormal, ActionResponse, ActionResponseNormal, ActionResponseWithOptionalData, ActionResult,
    DataAccessResult, GetDataResult, GetDataResultModel, GetRequest, GetRequestNormal, GetResponse,
    GetResponseModel, GetResponseNormal, SetRequest, SetRequestNormal, SetResponse, SetResponseNormal,
};
use crate::security::{fill_random, hmac_sha256_of, lls_authenticate, SecurityError};
use crate::transport::Transport;
use crate::types::{copy_bytes, copy_data, CosemData};
use crate::xdlms::{
    initiate_response_bytes, parse_initiate_request, parse_user_information, user_information_bytes,
    AssociationParameters, InitiateRequest, InitiateResponse,
};

verus! {

broadcast use vstd::std_specs::hash::group_hash_axioms;

/// The denial that a Get-Request receives.
pub open spec fn get_denied(r: GetResponse, invoke: u8, code: DataAccessResult) -> bool {
    r@ == GetResponseModel::Normal { invoke, result: GetDataResultModel::AccessResult(code) }
}

fn get_denial(invoke: u8, code: DataAccessResult) -> (r: GetResponse)
    ensures
        get_denied(r, invoke, code),
{
    GetResponse::Normal(
        GetResponseNormal {
            invoke_id_and_priority: invoke,
            result: GetDataResult::DataAccessResult(code),
        },
    )
}

fn set_denial(invoke: u8, code: DataAccessResult) -> (r: SetResponse)
    ensures
        r == SetResponse::Normal(SetResponseNormal { invoke_id_and_priority: invoke, result: code }),
{
    SetResponse::Normal(SetResponseNormal { invoke_id_and_priority: invoke, result: code })
}

pub open spec fn action_denied(r: ActionResponse, invoke: u8, code: ActionResult) -> bool {
    &&& r matches ActionResponse::Normal(n)
    &&& n.invoke_id_and_priority == invoke
    &&& n.single_response.result == code
    &&& n.single_response.return_parameters is None
}

fn action_denial(invoke: u8, code: ActionResult) -> (r: ActionResponse)
    ensures
        action_denied(r, invoke, code),
{
    ActionResponse::Normal(
        ActionResponseNormal {
            invoke_id_and_priority: invoke,
            single_response: ActionResponseWithOptionalData { result: code, return_parameters: None },
        },
    )
}

/// The Get-Response for a read, from what the hooks and the object gave: a
/// failed pre-read or post-read hook gives its code, an attribute that the
/// object does not give is `ObjectUnavailable`, else the value.
pub fn read_response(
    invoke: u8,
    pre: Result<(), DataAccessResult>,
    value: Option<CosemData>,
    post: Result<(), DataAccessResult>,
) -> (r: GetResponse)
    ensures
        r@ == match (pre, post, value) {
            (Err(c), _, _) => GetResponseModel::Normal { invoke, result: GetDataResultModel::AccessResult(c) },
            (Ok(()), Err(c), _) => GetResponseModel::Normal { invoke, result: GetDataResultModel::AccessResult(c) },
            (Ok(()), Ok(()), Some(d)) => GetResponseModel::Normal { invoke, result: GetDataResultModel::Data(d@) },
            (Ok(()), Ok(()), None) => GetResponseModel::Normal {
                invoke,
                result: GetDataResultModel::AccessResult(DataAccessResult::ObjectUnavailable),
            },
        },
{
    match pre {
        Err(c) => get_denial(invoke, c),
        Ok(()) => match post {
            Err(c) => get_denial(invoke, c),
            Ok(()) => match value {
                Some(d) => GetResponse::Normal(
                    GetResponseNormal { invoke_id_and_priority: invoke, result: GetDataResult::Data(d) },
                ),
                None => get_denial(invoke, DataAccessResult::ObjectUnavailable),
            },
        },
    }
}

/// The Set-Response for a write, from what the hooks and the object gave:
/// a failed pre-write hook gives its code, a value that the object refuses
/// is `ObjectUnavailable`, a failed post-write hook gives its code, else
/// `Success`.
pub fn write_response(
    invoke: u8,
    pre: Result<(), DataAccessResult>,
    written: Option<()>,
    post: Result<(), DataAccessResult>,
) -> (r: SetResponse)
    ensures
        r == SetResponse::Normal(
            SetResponseNormal {
                invoke_id_and_priority: invoke,
                result: match (pre, written, post) {
                    (Err(c), _, _) => c,
                    (Ok(()), None, _) => DataAccessResult::ObjectUnavailable,
                    (Ok(()), Some(()), Err(c)) => c,
                    (Ok(()), Some(()), Ok(())) => DataAccessResult::Success,
                },
            },
        ),
{
    let code = match pre {
        Err(c) => c,
        Ok(()) => match written {
            None => DataAccessResult::ObjectUnavailable,
            Some(()) => match post {
                Err(c) => c,
                Ok(()) => DataAccessResult::Success,
            },
        },
    };
    set_denial(invoke, code)
}

/// The Action-Response for an invocation, from what the hooks and the
/// object gave: a failed hook gives its code and no return value; a method
/// that gives nothing is `ObjectUnavailable`; else `Success` with the value.
pub fn action_response(
    invoke: u8,
    pre: Result<(), ActionResult>,
    result: Option<CosemData>,
    post: Result<(), ActionResult>,
) -> (r: ActionResponse)
    ensures
        r matches ActionResponse::Normal(n) && n.invoke_id_and_priority == invoke && match (pre, post, result) {
            (Err(c), _, _) => n.single_response.result == c && n.single_response.return_parameters is None,
            (Ok(()), Err(c), _) => n.single_response.result == c && n.single_response.return_parameters is None,
            (Ok(()), Ok(()), Some(d)) => n.single_response.result == ActionResult::Success
                && (n.single_response.return_parameters matches Some(GetDataResult::Data(v)) && v@ == d@),
            (Ok(()), Ok(()), None) => n.single_response.result == ActionResult::ObjectUnavailable
                && n.single_response.return_parameters is None,
        },
{
    match pre {
        Err(c) => action_denial(invoke, c),
        Ok(()) => match post {
            Err(c) => action_denial(invoke, c),
            Ok(()) => match result {
                Some(d) => ActionResponse::Normal(
                    ActionResponseNormal {
                        invoke_id_and_priority: invoke,
                        single_response: ActionResponseWithOptionalData {
                            result: ActionResult::Success,
                            return_parameters: Some(GetDataResult::Data(d)),
                        },
                    },
                ),
                None => action_denial(invoke, ActionResult::ObjectUnavailable),
            },
        },
    }
}

/// Reads an attribute of an object: its access rights first, then the
/// hooks around the read. An attribute that the rights do not let be read
/// is denied before anything else runs.
pub fn read_attribute<X: CosemObject>(
    object: &mut X,
    rights: &Vec<AttributeAccessDescriptor>,
    invoke: u8,
    attribute_id: CosemObjectAttributeId,
) -> (r: GetResponse)
    ensures
        r matches GetResponse::Normal(n) && n.invoke_id_and_priority == invoke,
        !mode_permits(attribute_mode_in(rights@, attribute_id), AttributeOperation::Read) ==> (
        get_denied(r, invoke, DataAccessResult::ReadWriteDenied) && *final(object) == *old(object)),
{
    if !attribute_operation_allowed(rights, attribute_id, AttributeOperation::Read) {
        return get_denial(invoke, DataAccessResult::ReadWriteDenied);
    }
    let pre = object.pre_read(attribute_id);
    if pre.is_err() {
        return read_response(invoke, pre, None, Ok(()));
    }
    let mut value = object.get_attribute(attribute_id);
    let post = object.post_read(attribute_id, &mut value);
    read_response(invoke, pre, value, post)
}

/// Writes an attribute of an object: its access rights first, then the
/// hooks around the write. An attribute that the rights do not let be
/// written is denied and left as it was.
pub fn write_attribute<X: CosemObject>(
    object: &mut X,
    rights: &Vec<AttributeAccessDescriptor>,
    invoke: u8,
    attribute_id: CosemObjectAttributeId,
    value: CosemData,
) -> (r: SetResponse)
    ensures
        r matches SetResponse::Normal(n) && n.invoke_id_and_priority == invoke,
        !mode_permits(attribute_mode_in(rights@, attribute_id), AttributeOperation::Write)
            ==> r == SetResponse::Normal(
            SetResponseNormal { invoke_id_and_priority: invoke, result: DataAccessResult::ReadWriteDenied },
        ) && *final(object) == *old(object),
{
    if !attribute_operation_allowed(rights, attribute_id, AttributeOperation::Write) {
        return set_denial(invoke, DataAccessResult::ReadWriteDenied);
    }
    let mut value = value;
    let pre = object.pre_write(attribute_id, &mut value);
    if pre.is_err() {
        return write_response(invoke, pre, None, Ok(()));
    }
    let written = object.set_attribute(attribute_id, copy_data(&value));
    let post = match written {
        Some(()) => object.post_write(attribute_id, &value),
        None => Ok(()),
    };
    write_response(invoke, pre, written, post)
}

/// Invokes a method of an object: its access rights first, then the hooks
/// around the call. A method that the rights do not grant is denied and the
/// object left as it was.
pub fn invoke_object_method<X: CosemObject>(
    object: &mut X,
    rights: &Vec<MethodAccessDescriptor>,
    invoke: u8,
    method_id: CosemObjectMethodId,
    parameters: Option<CosemData>,
) -> (r: ActionResponse)
    ensures
        r matches ActionResponse::Normal(n) && n.invoke_id_and_priority == invoke,
        !method_permitted(rights@, method_id) ==> action_denied(
            r,
            invoke,
            ActionResult::ReadWriteDenied,
        ) && *final(object) == *old(object),
{
    if !method_operation_allowed(rights, method_id) {
        return action_denial(invoke, ActionResult::ReadWriteDenied);
    }
    let mut parameters = match parameters {
        Some(p) => p,
        None => CosemData::NullData,
    };
    let pre = object.pre_action(method_id, &mut parameters);
    if pre.is_err() {
        return action_response(invoke, pre, None, Ok(()));
    }
    let mut result = object.invoke_method(method_id, parameters);
    let post = object.post_action(method_id, &mut result);
    action_response(invoke, pre, result, post)
}

/// Where a logical name leads for a client: its own Association LN, a
/// registered object, an Association LN template, or nowhere.
enum Target {
    Instance,
    Registered(usize),
    Template(usize),
    Missing,
}

/// The server side of the protocol: association state per client SAP, the
/// registry of objects, and the dispatcher.
pub struct Server<T: Transport, O: CosemObject> {
    address: u16,
    transport: T,
    password: Option<Vec<u8>>,
    key: Option<Vec<u8>>,
    objects: Vec<([u8; 6], O)>,
    association_logical_names: HashMap<u16, [u8; 6]>,
    association_templates: Vec<([u8; 6], AssociationLN)>,
    client_association_instances: HashMap<u16, AssociationLN>,
    lls_challenges: HashMap<u16, Vec<u8>>,
    association_parameters: AssociationParameters,
    active_associations: HashMap<u16, AssociationContext>,
}

impl<T: Transport, O: CosemObject> Server<T, O> {
    /// Whether the client at `sap` has an established association.
    pub closed spec fn has_context(&self, sap: u16) -> bool {
        self.active_associations@.contains_key(sap)
    }

    /// The receive limit that the client at `sap` negotiated.
    pub closed spec fn context_limit(&self, sap: u16) -> u16 {
        self.active_associations@[sap].client_max_receive_pdu_size
    }

    /// The LLS challenge pending for the client at `sap`, if any.
    pub closed spec fn challenge_of(&self, sap: u16) -> Option<Seq<u8>> {
        if self.lls_challenges@.contains_key(sap) {
            Some(self.lls_challenges@[sap]@)
        } else {
            None
        }
    }

    pub closed spec fn params(&self) -> AssociationParameters {
        self.association_parameters
    }

    pub closed spec fn password_spec(&self) -> Option<Seq<u8>> {
        match self.password {
            Some(p) => Some(p@),
            None => None,
        }
    }

    pub closed spec fn server_address(&self) -> u16 {
        self.address
    }

    /// The partners id of the Association LN instance of the client at
    /// `sap`, if it has one.
    pub closed spec fn instance_partners_id(&self, sap: u16) -> Option<u32> {
        if self.client_association_instances@.contains_key(sap) {
            Some(self.client_association_instances@[sap].partners_id())
        } else {
            None
        }
    }

    /// Everything but the registry and the templates is as in `other`.
    pub closed spec fn same_session(&self, other: Self) -> bool {
        &&& self.address == other.address
        &&& self.association_parameters == other.association_parameters
        &&& self.password == other.password
        &&& self.active_associations@ == other.active_associations@
        &&& self.lls_challenges@ == other.lls_challenges@
        &&& self.client_association_instances@ == other.client_association_instances@
    }

    /// A pending challenge and an established association never exist for
    /// the same client at once.
    pub closed spec fn exclusive(&self) -> bool {
        forall|s: u16|
            !(#[trigger] self.lls_challenges@.contains_key(s) && self.active_associations@.contains_key(s))
    }

    /// The public Association LN has a template, so every client that
    /// associates gets an Association LN instance.
    pub closed spec fn has_public_template(&self) -> bool {
        templates_have_public(self.association_templates@)
    }

    /// No client has a pending challenge and an association at once, and the
    /// public Association LN has a template.
    pub closed spec fn wf(&self) -> bool {
        self.exclusive() && self.has_public_template()
    }

    /// A server at `address` with the three predefined associations (public,
    /// meter reader, configurator) and no client associated.
    pub fn new(address: u16, transport: T, password: Option<Vec<u8>>, key: Option<Vec<u8>>) -> (r: Self)
        ensures
            r.wf(),
            r.server_address() == address,
            forall|s: u16| !r.has_context(s) && r.challenge_of(s) is None,
            r.params().dlms_version == crate::xdlms::DEFAULT_DLMS_VERSION,
            r.params().max_receive_pdu_size == crate::xdlms::DEFAULT_MAX_RECEIVE_PDU_SIZE,
    {
        let mechanism = match &password {
            Some(_) => crate::negotiation::lls_mechanism(),
            None => crate::negotiation::no_auth_mechanism(),
        };
        let mut server = Server {
            address,
            transport,
            password,
            key,
            objects: Vec::new(),
            association_logical_names: HashMap::new(),
            association_templates: Vec::new(),
            client_association_instances: HashMap::new(),
            lls_challenges: HashMap::new(),
            association_parameters: crate::xdlms::default_association_parameters(),
            active_associations: HashMap::new(),
        };
        let saps: [u16; 3] = [PUBLIC_CLIENT_SAP, METER_READER_CLIENT_SAP, CONFIGURATOR_CLIENT_SAP];
        let mut k: usize = 0;
        while k < 3
            invariant
                k <= 3,
                server.exclusive(),
                k >= 1 ==> server.has_public_template(),
                server.address == address,
                server.association_parameters.dlms_version == crate::xdlms::DEFAULT_DLMS_VERSION,
                server.association_parameters.max_receive_pdu_size
                    == crate::xdlms::DEFAULT_MAX_RECEIVE_PDU_SIZE,
                server.active_associations@ == Map::<u16, AssociationContext>::empty(),
                server.lls_challenges@ == Map::<u16, Vec<u8>>::empty(),
            decreases 3 - k,
        {
            let sap = saps[k];
            let partners = ((sap as u32) * 0x1_0000) + address as u32;
            let association = AssociationLN::new(
                Vec::new(),
                partners,
                crate::negotiation::ln_with_no_ciphering(),
                Vec::new(),
                copy_bytes(mechanism.as_slice()),
            );
            let ln = crate::negotiation::association_ln((k + 1) as u8);
            server.register_association_for_client(sap, ln, association);
            k = k + 1;
        }
        assert forall|s: u16| !server.has_context(s) && server.challenge_of(s) is None by {}
        server
    }

    pub fn set_association_parameters(&mut self, params: AssociationParameters)
        requires
            old(self).wf(),
        ensures
            final(self).params() == params,
            final(self).wf(),
            forall|s: u16| final(self).has_context(s) == old(self).has_context(s),
    {
        self.association_parameters = params;
    }

    /// The object that `logical_name` leads to in the registry: the first
    /// one registered under that name.
    pub closed spec fn object_named(&self, logical_name: Seq<u8>) -> Option<O> {
        first_named(self.objects@, logical_name)
    }

    /// Registers `object` under `instance_id`, in place of any object of
    /// that name; every other name keeps its object.
    pub fn register_object(&mut self, instance_id: [u8; 6], object: O)
        requires
            old(self).wf(),
        ensures
            final(self).wf(),
            final(self).same_session(*old(self)),
            final(self).is_registered(instance_id@),
            final(self).object_named(instance_id@) == Some(object),
            forall|n: Seq<u8>| n != instance_id@ ==> #[trigger] final(self).object_named(n) == old(self).object_named(n),
    {
        let ghost before = self.objects@;
        let mut i: usize = 0;
        while i < self.objects.len()
            invariant
                i <= self.objects@.len(),
                self.same_session(*old(self)),
                self.wf(),
                self.objects@ == before,
                before == old(self).objects@,
                forall|k: int| 0 <= k < i ==> (#[trigger] before[k]).0@ != instance_id@,
            decreases self.objects.len() - i,
        {
            if same_logical_name(&self.objects[i].0, &instance_id) {
                let _ = self.objects.remove(i);
                self.objects.insert(i, (instance_id, object));
                proof {
                    assert(self.objects@ =~= before.update(i as int, (instance_id, object)));
                    lemma_first_named_replaced(before, i as int, (instance_id, object));
                    assert(self.objects@[i as int].0@ == instance_id@);
                }
                return;
            }
            i = i + 1;
        }
        self.objects.push((instance_id, object));
        proof {
            assert(self.objects@ =~= before.push((instance_id, object)));
            lemma_first_named_pushed(before, (instance_id, object));
            assert(self.objects@[before.len() as int].0@ == instance_id@);
        }
    }

    /// Maps client `client_sap` to the Association LN named `logical_name`
    /// and registers `association` as its template.
    pub fn register_association_for_client(
        &mut self,
        client_sap: u16,
        logical_name: [u8; 6],
        association: AssociationLN,
    )
        requires
            old(self).exclusive(),
        ensures
            final(self).exclusive(),
            final(self).same_session(*old(self)),
            old(self).has_public_template() || logical_name@ == association_ln_spec(1)
                ==> final(self).has_public_template(),
    {
        self.association_logical_names.insert(client_sap, logical_name);
        let mut i: usize = 0;
        while i < self.association_templates.len()
            invariant
                i <= self.association_templates@.len(),
                self.same_session(*old(self)),
                self.exclusive(),
                self.association_templates@ == old(self).association_templates@,
            decreases self.association_templates.len() - i,
        {
            if same_logical_name(&self.association_templates[i].0, &logical_name) {
                let ghost before = self.association_templates@;
                let _ = self.association_templates.remove(i);
                self.association_templates.insert(i, (logical_name, association));
                proof {
                    assert(self.association_templates@ =~= before.update(i as int, (logical_name, association)));
                    lemma_template_replaced(before, i as int, (logical_name, association));
                    if logical_name@ == association_ln_spec(1) {
                        assert(self.association_templates@[i as int].0@ == association_ln_spec(1));
                    }
                }
                return;
            }
            i = i + 1;
        }
        let ghost before = self.association_templates@;
        self.association_templates.push((logical_name, association));
        proof {
            if templates_have_public(before) {
                let j = choose|j: int| 0 <= j < before.len() && (#[trigger] before[j]).0@ == association_ln_spec(1);
                assert(self.association_templates@[j].0@ == association_ln_spec(1));
            }
            if logical_name@ == association_ln_spec(1) {
                assert(self.association_templates@[before.len() as int].0@ == association_ln_spec(1));
            }
        }
    }

    /// Whether the client at `sap` has an established association.
    pub fn has_active_association(&self, sap: u16) -> (r: bool)
        ensures
            r == self.has_context(sap),
    {
        self.active_associations.contains_key(&sap)
    }

    /// The challenge pending for the client at `sap`.
    pub fn pending_challenge(&self, sap: u16) -> (r: Option<Vec<u8>>)
        ensures
            match self.challenge_of(sap) {
                Some(c) => r matches Some(v) && v@ == c,
                None => r is None,
            },
    {
        match self.lls_challenges.get(&sap) {
            Some(c) => Some(copy_bytes(c.as_slice())),
            None => None,
        }
    }

    /// The partners id of the Association LN instance of the client at `sap`.
    pub fn association_partners_id(&self, sap: u16) -> (r: Option<u32>)
        ensures
            r == self.instance_partners_id(sap),
    {
        match self.client_association_instances.get(&sap) {
            Some(a) => Some(a.associated_partners_id()),
            None => None,
        }
    }

    fn find_template(&self, logical_name: &[u8; 6]) -> (r: Option<usize>)
        ensures
            r matches Some(i) ==> i < self.association_templates@.len()
                && self.association_templates@[i as int].0@ == logical_name@,
            r is None ==> forall|j: int|
                0 <= j < self.association_templates@.len()
                    ==> (#[trigger] self.association_templates@[j]).0@ != logical_name@,
    {
        let mut i: usize = 0;
        while i < self.association_templates.len()
            invariant
                i <= self.association_templates@.len(),
                forall|j: int|
                    0 <= j < i ==> (#[trigger] self.association_templates@[j]).0@ != logical_name@,
            decreases self.association_templates.len() - i,
        {
            if same_logical_name(&self.association_templates[i].0, logical_name) {
                return Some(i);
            }
            i = i + 1;
        }
        None
    }

    /// Ends any association and challenge of the client at `sap`.
    fn forget_client(&mut self, sap: u16)
        requires
            old(self).wf(),
        ensures
            final(self).wf(),
            !final(self).has_context(sap),
            final(self).challenge_of(sap) is None,
            final(self).address == old(self).address,
            final(self).association_parameters == old(self).association_parameters,
            final(self).password == old(self).password,
            final(self).others_unchanged(*old(self), sap),
    {
        self.active_associations.remove(&sap);
        self.client_association_instances.remove(&sap);
        self.lls_challenges.remove(&sap);
    }

    /// Establishes the association of the client at `sap`: its context, and
    /// its own Association LN instance stamped with the partners id.
    fn establish(&mut self, sap: u16, client_limit: u16) -> (r: Result<(), ServerError<T::Error>>)
        requires
            old(self).wf(),
            !old(self).lls_challenges@.contains_key(sap),
        ensures
            final(self).wf(),
            final(self).address == old(self).address,
            final(self).association_parameters == old(self).association_parameters,
            final(self).password == old(self).password,
            final(self).lls_challenges@ == old(self).lls_challenges@,
            final(self).others_unchanged(*old(self), sap),
            r is Ok ==> final(self).has_context(sap) && final(self).context_limit(sap)
                == client_limit && final(self).instance_partners_id(sap) == Some(
                (sap as u32 * 0x1_0000 + old(self).address as u32) as u32,
            ),
            r is Ok,
    {
        self.active_associations.insert(sap, AssociationContext { client_max_receive_pdu_size: client_limit });
        let public = crate::negotiation::association_ln(1);
        let logical_name = match self.association_logical_names.get(&sap) {
            Some(ln) => *ln,
            None => {
                self.association_logical_names.insert(sap, public);
                public
            },
        };
        let found = match self.find_template(&logical_name) {
            Some(i) => Some(i),
            None => self.find_template(&public),
        };
        let index = match found {
            Some(i) => i,
            None => {
                self.client_association_instances.remove(&sap);
                self.active_associations.remove(&sap);
                return Err(ServerError::DlmsError(DlmsError::Xdlms));
            },
        };
        let partners_id = (sap as u32) * 0x1_0000 + self.address as u32;
        let mut instance = match self.client_association_instances.remove(&sap) {
            Some(existing) => existing,
            None => self.association_templates[index].1.duplicate(),
        };
        instance.set_associated_partners_id(partners_id);
        self.client_association_instances.insert(sap, instance);
        Ok(())
    }

    /// Answers an AARQ from the client at `sap`: negotiates the Initiate
    /// request, runs the LLS challenge and response where a password is set
    /// and the client names LLS, and keeps the association state. Returns
    /// the AARE, the client's receive limit, and whether the request was
    /// refused by negotiation.
    pub fn process_aarq(&mut self, sap: u16, aarq: &AarqApdu) -> (r: Result<(AareApdu, u16, bool), ServerError<T::Error>>)
        requires
            old(self).wf(),
        ensures
            final(self).wf(),
            final(self).server_address() == old(self).server_address(),
            final(self).params() == old(self).params(),
            final(self).others_unchanged(*old(self), sap),
            r matches Ok((aare, _, _)) ==> aare@.user_information.len() <= 20
                && aare@.application_context_name == aarq@.application_context_name
                && (aare@.responding_authentication_value matches Some(c) ==> c.len() == CHALLENGE_LEN),
            aarq_initiate(aarq@) is None ==> r is Err,
            aarq_initiate(aarq@) matches Some(req) ==> match negotiation_outcome(old(self).params(), req) {
                Err(e) => r matches Ok((aare, limit, refused)) && refused
                    && aare@ == refused_aare(aarq@, old(self).params(), e)
                    && limit == req.client_max_receive_pdu_size
                    && !final(self).has_context(sap) && final(self).challenge_of(sap) is None,
                Ok(resp) => r matches Ok((aare, limit, refused)) ==> !refused
                    && limit == req.client_max_receive_pdu_size
                    && (final(self).has_context(sap) ==> final(self).context_limit(sap)
                    == req.client_max_receive_pdu_size && final(self).instance_partners_id(sap)
                    == Some(partners_id_of(sap, old(self).server_address()))),
            },
            aarq_initiate(aarq@) matches Some(req) ==> (negotiation_outcome(old(self).params(), req)
                matches Ok(resp) ==> (lls_applies(old(self).password_spec(), aarq@)
                ==> match aarq@.calling_authentication_value {
                None => (r is Err ==> r matches Err(ServerError::SecurityError(_)))
                    && (r matches Ok((aare, _, _)) ==> aare.responding_authentication_value matches Some(c)
                    && aare@ == challenge_aare(aarq@, resp, c@)
                    && c@.len() == CHALLENGE_LEN && final(self).challenge_of(sap) == Some(c@)
                    && !final(self).has_context(sap)),
                Some(a) => match old(self).challenge_of(sap) {
                    Some(c) => if a == hmac_sha256_of(old(self).password_spec()->0, c) {
                        r matches Ok((aare, _, _)) && aare@ == accepted_aare(aarq@, resp)
                            && final(self).challenge_of(sap) is None && final(self).has_context(sap)
                    } else {
                        r matches Ok((aare, _, _)) && aare@ == failed_aare(aarq@, resp)
                            && final(self).challenge_of(sap) == Some(c) && !final(self).has_context(sap)
                    },
                    None => r matches Ok((aare, _, _)) && aare@ == failed_aare(aarq@, resp)
                        && !final(self).has_context(sap) && final(self).challenge_of(sap) is None,
                },
            })),
            aarq_initiate(aarq@) matches Some(req) ==> (negotiation_outcome(old(self).params(), req)
                matches Ok(resp) ==> (!lls_applies(old(self).password_spec(), aarq@) ==> (r matches Ok((aare, _, refused))
                && !refused && aare@ == accepted_aare(aarq@, resp)
                && final(self).has_context(sap) && final(self).challenge_of(sap) is None))),
    {
        let request = match InitiateRequest::from_user_information(aarq.user_information.as_slice()) {
            Ok(req) => req,
            Err(_) => {
                return Err(ServerError::DlmsError(DlmsError::Xdlms));
            },
        };
        let client_limit = request.client_max_receive_pdu_size;
        let negotiation = negotiate_initiate_response(&self.association_parameters, &request);
        let response = match negotiation {
            Ok(resp) => resp,
            Err(e) => {
                let fallback = self.association_parameters.to_initiate_response(
                    self.association_parameters.conformance,
                );
                proof {
                    crate::xdlms::lemma_response_user_information_len(fallback);
                }
                let user_information = match fallback.to_user_information() {
                    Ok(v) => v,
                    Err(_) => {
                        return Err(ServerError::DlmsError(DlmsError::Xdlms));
                    },
                };
                self.forget_client(sap);
                let aare = AareApdu {
                    application_context_name: copy_bytes(aarq.application_context_name.as_slice()),
                    result: 1,
                    result_source_diagnostic: e.diagnostic(),
                    responding_authentication_value: None,
                    user_information,
                };
                return Ok((aare, client_limit, true));
            },
        };
        proof {
            crate::xdlms::lemma_response_user_information_len(response);
        }
        let user_information = match response.to_user_information() {
            Ok(v) => v,
            Err(_) => {
                return Err(ServerError::DlmsError(DlmsError::Xdlms));
            },
        };
        let mut aare = AareApdu {
            application_context_name: copy_bytes(aarq.application_context_name.as_slice()),
            result: 0,
            result_source_diagnostic: 0,
            responding_authentication_value: None,
            user_information,
        };
        let lls = match (&self.password, &aarq.mechanism_name) {
            (Some(_), Some(m)) => bytes_equal(m.as_slice(), crate::negotiation::lls_mechanism().as_slice()),
            _ => false,
        };
        if lls {
            match &aarq.calling_authentication_value {
                Some(auth_value) => {
                    let verdict = match (self.lls_challenges.get(&sap), &self.password) {
                        (Some(challenge), Some(password)) => match lls_authenticate(password.as_slice(), challenge.as_slice()) {
                            Ok(expected) => bytes_equal(auth_value.as_slice(), expected.as_slice()),
                            Err(_) => false,
                        },
                        _ => false,
                    };
                    if !verdict {
                        self.active_associations.remove(&sap);
                        self.client_association_instances.remove(&sap);
                        aare.result = 1;
                        return Ok((aare, client_limit, false));
                    }
                    self.lls_challenges.remove(&sap);
                },
                None => {
                    let mut challenge = [0u8; 16];
                    match fill_random(&mut challenge) {
                        Ok(()) => {},
                        Err(e) => {
                            return Err(ServerError::SecurityError(e));
                        },
                    }
                    let challenge = copy_bytes(challenge.as_slice());
                    self.active_associations.remove(&sap);
                    self.client_association_instances.remove(&sap);
                    self.lls_challenges.insert(sap, copy_bytes(challenge.as_slice()));
                    aare.responding_authentication_value = Some(challenge);
                    return Ok((aare, client_limit, false));
                },
            }
        }
        self.lls_challenges.remove(&sap);
        self.establish(sap, client_limit)?;
        Ok((aare, client_limit, false))
    }

    /// Answers an RLRQ from the client at `sap`: the association and any
    /// challenge end, and the RLRE echoes the reason (0 when none was given)
    /// and the user-information.
    pub fn process_release(&mut self, sap: u16, request: ArlrqApdu) -> (r: ArlreApdu)
        requires
            old(self).wf(),
        ensures
            final(self).wf(),
            final(self).server_address() == old(self).server_address(),
            final(self).params() == old(self).params(),
            !final(self).has_context(sap),
            final(self).challenge_of(sap) is None,
            final(self).others_unchanged(*old(self), sap),
            r.reason == Some(
                match request.reason {
                    Some(x) => x,
                    None => 0u8,
                },
            ),
            r.user_information == request.user_information,
    {
        self.forget_client(sap);
        let reason = match request.reason {
            Some(x) => x,
            None => 0,
        };
        ArlreApdu { reason: Some(reason), user_information: request.user_information }
    }

    /// The object list: one entry for each registered object and for each
    /// Association LN template, taken from them as they are now.
    pub fn object_list(&self) -> (r: Vec<ObjectListEntry>)
        ensures
            r@.len() == self.registry_len(),
            forall|i: int| 0 <= i < r@.len() ==> (#[trigger] r@[i]).logical_name@ == self.registry_names()[i],
    {
        let mut list: Vec<ObjectListEntry> = Vec::new();
        let mut i: usize = 0;
        while i < self.objects.len()
            invariant
                i <= self.objects@.len(),
                list@.len() == i,
                forall|k: int| 0 <= k < i ==> (#[trigger] list@[k]).logical_name@ == self.registry_names()[k],
            decreases self.objects.len() - i,
        {
            let object = &self.objects[i].1;
            list.push(
                ObjectListEntry {
                    class_id: object.class_id(),
                    version: object.version(),
                    logical_name: self.objects[i].0,
                    attribute_access: object.attribute_access_rights(),
                    method_access: object.method_access_rights(),
                },
            );
            i = i + 1;
        }
        let mut j: usize = 0;
        while j < self.association_templates.len()
            invariant
                j <= self.association_templates@.len(),
                i == self.objects@.len(),
                list@.len() == i + j,
                forall|k: int| 0 <= k < i + j ==> (#[trigger] list@[k]).logical_name@ == self.registry_names()[k],
            decreases self.association_templates.len() - j,
        {
            let template = &self.association_templates[j].1;
            list.push(
                ObjectListEntry {
                    class_id: template.class_id(),
                    version: template.version(),
                    logical_name: self.association_templates[j].0,
                    attribute_access: template.attribute_access_rights(),
                    method_access: template.method_access_rights(),
                },
            );
            j = j + 1;
        }
        list
    }

    /// Where `logical_name` leads for the client at `sap`: its own
    /// Association LN when the name is the one mapped to it, else a
    /// registered object, else an Association LN template.
    fn resolve(&self, sap: u16, logical_name: &[u8; 6]) -> (r: Target)
        ensures
            r matches Target::Registered(i) ==> i < self.objects@.len(),
            r matches Target::Template(i) ==> i < self.association_templates@.len(),
            r is Missing <==> !self.name_known(sap, logical_name@),
            r is Instance ==> self.client_association_instances@.contains_key(sap),
    {
        let own = match self.association_logical_names.get(&sap) {
            Some(ln) => same_logical_name(ln, logical_name) && self.client_association_instances.contains_key(&sap),
            None => false,
        };
        if own {
            return Target::Instance;
        }
        let mut i: usize = 0;
        while i < self.objects.len()
            invariant
                i <= self.objects@.len(),
                !own,
                own == (self.association_logical_names@.contains_key(sap)
                    && self.association_logical_names@[sap]@ == logical_name@
                    && self.client_association_instances@.contains_key(sap)),
                forall|j: int| 0 <= j < i ==> (#[trigger] self.objects@[j]).0@ != logical_name@,
            decreases self.objects.len() - i,
        {
            if same_logical_name(&self.objects[i].0, logical_name) {
                assert(self.objects@[i as int].0@ == logical_name@);
                return Target::Registered(i);
            }
            i = i + 1;
        }
        match self.find_template(logical_name) {
            Some(j) => Target::Template(j),
            None => Target::Missing,
        }
    }

    /// Answers a normal Get-Request from the client at `sap`. Without an
    /// association the answer is `ReadWriteDenied`; a name that leads
    /// nowhere is an error.
    pub fn process_get(&mut self, sap: u16, request: &GetRequestNormal) -> (r: Result<GetResponse, ServerError<T::Error>>)
        requires
            old(self).wf(),
        ensures
            final(self).wf(),
            final(self).same_session_state(*old(self)),
            !old(self).has_context(sap) ==> (r matches Ok(resp) && get_denied(
                resp,
                request.invoke_id_and_priority,
                DataAccessResult::ReadWriteDenied,
            )),
            old(self).has_context(sap) && !old(self).name_known(
                sap,
                request.cosem_attribute_descriptor.instance_id@,
            ) ==> r is Err,
            old(self).has_context(sap) && old(self).name_known(
                sap,
                request.cosem_attribute_descriptor.instance_id@,
            ) ==> (r matches Ok(GetResponse::Normal(n)) && n.invoke_id_and_priority == request.invoke_id_and_priority),
    {
        let invoke = request.invoke_id_and_priority;
        if !self.active_associations.contains_key(&sap) {
            return Ok(get_denial(invoke, DataAccessResult::ReadWriteDenied));
        }
        let attribute_id = request.cosem_attribute_descriptor.attribute_id;
        match self.resolve(sap, &request.cosem_attribute_descriptor.instance_id) {
            Target::Instance => {
                let list = self.object_list();
                match self.client_association_instances.remove(&sap) {
                    Some(mut instance) => {
                        instance.set_object_list(list);
                        let rights = instance.attribute_access_rights();
                        let response = read_attribute(&mut instance, &rights, invoke, attribute_id);
                        self.client_association_instances.insert(sap, instance);
                        Ok(response)
                    },
                    None => Err(ServerError::DlmsError(DlmsError::Xdlms)),
                }
            },
            Target::Registered(i) => {
                let (name, mut object) = self.objects.remove(i);
                let rights = object.attribute_access_rights();
                        let response = read_attribute(&mut object, &rights, invoke, attribute_id);
                self.objects.insert(i, (name, object));
                Ok(response)
            },
            Target::Template(i) => {
                let list = self.object_list();
                let ghost before_templates = self.association_templates@;
                let (name, mut template) = self.association_templates.remove(i);
                template.set_object_list(list);
                let rights = template.attribute_access_rights();
                        let response = read_attribute(&mut template, &rights, invoke, attribute_id);
                self.association_templates.insert(i, (name, template));
                proof {
                    assert(self.association_templates@ =~= before_templates.update(i as int, (name, template)));
                    lemma_template_replaced(before_templates, i as int, (name, template));
                }
                Ok(response)
            },
            Target::Missing => Err(ServerError::DlmsError(DlmsError::Xdlms)),
        }
    }

    /// Answers a normal Set-Request from the client at `sap`. Without an
    /// association the answer is `ReadWriteDenied`; a name that leads
    /// nowhere is an error.
    pub fn process_set(&mut self, sap: u16, request: SetRequestNormal) -> (r: Result<SetResponse, ServerError<T::Error>>)
        requires
            old(self).wf(),
        ensures
            final(self).wf(),
            final(self).same_session_state(*old(self)),
            !old(self).has_context(sap) ==> r == Ok::<SetResponse, ServerError<T::Error>>(
                SetResponse::Normal(
                    SetResponseNormal {
                        invoke_id_and_priority: request.invoke_id_and_priority,
                        result: DataAccessResult::ReadWriteDenied,
                    },
                ),
            ),
            old(self).has_context(sap) && !old(self).name_known(
                sap,
                request.cosem_attribute_descriptor.instance_id@,
            ) ==> r is Err,
            old(self).has_context(sap) && old(self).name_known(
                sap,
                request.cosem_attribute_descriptor.instance_id@,
            ) ==> (r matches Ok(SetResponse::Normal(n)) && n.invoke_id_and_priority == request.invoke_id_and_priority),
    {
        let invoke = request.invoke_id_and_priority;
        if !self.active_associations.contains_key(&sap) {
            return Ok(set_denial(invoke, DataAccessResult::ReadWriteDenied));
        }
        let attribute_id = request.cosem_attribute_descriptor.attribute_id;
        match self.resolve(sap, &request.cosem_attribute_descriptor.instance_id) {
            Target::Instance => {
                match self.client_association_instances.remove(&sap) {
                    Some(mut instance) => {
                        let rights = instance.attribute_access_rights();
                        let response = write_attribute(&mut instance, &rights, invoke, attribute_id, request.value);
                        self.client_association_instances.insert(sap, instance);
                        Ok(response)
                    },
                    None => Err(ServerError::DlmsError(DlmsError::Xdlms)),
                }
            },
            Target::Registered(i) => {
                let (name, mut object) = self.objects.remove(i);
                let rights = object.attribute_access_rights();
                        let response = write_attribute(&mut object, &rights, invoke, attribute_id, request.value);
                self.objects.insert(i, (name, object));
                Ok(response)
            },
            Target::Template(i) => {
                let ghost before_templates = self.association_templates@;
                let (name, mut template) = self.association_templates.remove(i);
                let rights = template.attribute_access_rights();
                        let response = write_attribute(&mut template, &rights, invoke, attribute_id, request.value);
                self.association_templates.insert(i, (name, template));
                proof {
                    assert(self.association_templates@ =~= before_templates.update(i as int, (name, template)));
                    lemma_template_replaced(before_templates, i as int, (name, template));
                }
                Ok(response)
            },
            Target::Missing => Err(ServerError::DlmsError(DlmsError::Xdlms)),
        }
    }

    /// Answers a normal Action-Request from the client at `sap`. Without an
    /// association the answer is `ReadWriteDenied`; a name that leads
    /// nowhere is an error.
    pub fn process_action(&mut self, sap: u16, request: ActionRequestNormal) -> (r: Result<ActionResponse, ServerError<T::Error>>)
        requires
            old(self).wf(),
        ensures
            final(self).wf(),
            final(self).same_session_state(*old(self)),
            !old(self).has_context(sap) ==> (r matches Ok(resp) && action_denied(
                resp,
                request.invoke_id_and_priority,
                ActionResult::ReadWriteDenied,
            )),
            old(self).has_context(sap) && !old(self).name_known(
                sap,
                request.cosem_method_descriptor.instance_id@,
            ) ==> r is Err,
            old(self).has_context(sap) && old(self).name_known(
                sap,
                request.cosem_method_descriptor.instance_id@,
            ) ==> (r matches Ok(ActionResponse::Normal(n)) && n.invoke_id_and_priority == request.invoke_id_and_priority),
    {
        let invoke = request.invoke_id_and_priority;
        if !self.active_associations.contains_key(&sap) {
            return Ok(action_denial(invoke, ActionResult::ReadWriteDenied));
        }
        let method_id = request.cosem_method_descriptor.method_id;
        let parameters = request.method_invocation_parameters;
        match self.resolve(sap, &request.cosem_method_descriptor.instance_id) {
            Target::Instance => {
                match self.client_association_instances.remove(&sap) {
                    Some(mut instance) => {
                        let rights = instance.method_access_rights();
                        let response = invoke_object_method(&mut instance, &rights, invoke, method_id, parameters);
                        self.client_association_instances.insert(sap, instance);
                        Ok(response)
                    },
                    None => Err(ServerError::DlmsError(DlmsError::Xdlms)),
                }
            },
            Target::Registered(i) => {
                let (name, mut object) = self.objects.remove(i);
                let rights = object.method_access_rights();
                        let response = invoke_object_method(&mut object, &rights, invoke, method_id, parameters);
                self.objects.insert(i, (name, object));
                Ok(response)
            },
            Target::Template(i) => {
                let ghost before_templates = self.association_templates@;
                let (name, mut template) = self.association_templates.remove(i);
                let rights = template.method_access_rights();
                        let response = invoke_object_method(&mut template, &rights, invoke, method_id, parameters);
                self.association_templates.insert(i, (name, template));
                proof {
                    assert(self.association_templates@ =~= before_templates.update(i as int, (name, template)));
                    lemma_template_replaced(before_templates, i as int, (name, template));
                }
                Ok(response)
            },
            Target::Missing => Err(ServerError::DlmsError(DlmsError::Xdlms)),
        }
    }

    fn build_response_frame(&self, information: Vec<u8>) -> (r: Result<Vec<u8>, ServerError<T::Error>>)
        ensures
            r is Ok,
            r matches Ok(b) ==> b@ == crate::hdlc::hdlc_bytes(
                crate::hdlc::HdlcFrameModel { address: self.address, control: 0, information: information@ },
            ),
    {
        let frame = HdlcFrame { address: self.address, control: 0, information };
        match frame.to_bytes() {
            Ok(b) => Ok(b),
            Err(e) => Err(ServerError::DlmsError(e)),
        }
    }

    /// Handles one request frame from a client and gives the response
    /// frame. The frame must be well formed and its information no longer
    /// than the server's receive limit; it is read as AARQ, RLRQ, Get-,
    /// Set- or Action-Request in that order, and what none of them reads is
    /// an error. A response longer than the client's receive limit is an
    /// error too.
    #[verifier::rlimit(100)]
    #[verifier::spinoff_prover]
    pub fn handle_frame(&mut self, request_bytes: &[u8]) -> (r: Result<Vec<u8>, ServerError<T::Error>>)
        requires
            old(self).wf(),
        ensures
            final(self).wf(),
            final(self).server_address() == old(self).server_address(),
            final(self).params() == old(self).params(),
            crate::hdlc::parse_hdlc(request_bytes@) is Err ==> r is Err,
            crate::hdlc::parse_hdlc(request_bytes@) matches Ok(f) && f.information.len()
                > old(self).params().max_receive_pdu_size ==> r is Err,
            r matches Ok(b) ==> crate::hdlc::parse_hdlc(b@) matches Ok(f) && f.address
                == old(self).server_address() && f.control == 0,
            match crate::hdlc::parse_hdlc(request_bytes@) {
                Ok(f) => (f.information.len() <= old(self).params().max_receive_pdu_size
                    && crate::acse::parse_aarq(f.information) is None && crate::acse::parse_release(
                    f.information,
                    crate::acse::TAG_RLRQ,
                ) is Some) ==> (!final(self).has_context(f.address) && final(self).challenge_of(
                    f.address,
                ) is None),
                Err(_) => true,
            },
            match crate::hdlc::parse_hdlc(request_bytes@) {
                Ok(f) => (crate::acse::parse_aarq(f.information) is None && r is Ok) ==> (r matches Ok(b)
                    && crate::hdlc::parse_hdlc(b@) matches Ok(g) && g.information.len() <= if final(self).has_context(
                    f.address,
                ) {
                    final(self).context_limit(f.address)
                } else {
                    old(self).params().max_receive_pdu_size
                }),
                Err(_) => true,
            },
            match crate::hdlc::parse_hdlc(request_bytes@) {
                Ok(f) => match crate::pdu::parse_get_request(f.information) {
                    Some(crate::pdu::GetRequestModel::Normal { invoke, descriptor, .. }) => (f.information.len()
                        <= old(self).params().max_receive_pdu_size && crate::acse::parse_aarq(f.information) is None
                        && crate::acse::parse_release(f.information, crate::acse::TAG_RLRQ) is None
                        && old(self).has_context(f.address)) ==> ((!old(self).name_known(f.address, descriptor.instance_id)
                        ==> r is Err) && (r matches Ok(b) ==> crate::hdlc::parse_hdlc(b@) matches Ok(g)
                        && g.information.len() >= 2 && g.information[0] == crate::pdu::TAG_GET_RESPONSE_NORMAL
                        && g.information[1] == invoke)),
                    _ => true,
                },
                Err(_) => true,
            },
            match crate::hdlc::parse_hdlc(request_bytes@) {
                Ok(f) => match crate::pdu::parse_set_request(f.information) {
                    Some(req) => (f.information.len() <= old(self).params().max_receive_pdu_size
                        && crate::acse::parse_aarq(f.information) is None
                        && crate::acse::parse_release(f.information, crate::acse::TAG_RLRQ) is None
                        && crate::pdu::parse_get_request(f.information) is None && old(self).has_context(f.address))
                        ==> ((!old(self).name_known(f.address, req.descriptor.instance_id) ==> r is Err) && (r matches Ok(b)
                        ==> crate::hdlc::parse_hdlc(b@) matches Ok(g) && g.information.len() >= 2
                        && g.information[0] == crate::pdu::TAG_SET_RESPONSE_NORMAL && g.information[1] == req.invoke)),
                    None => true,
                },
                Err(_) => true,
            },
            match crate::hdlc::parse_hdlc(request_bytes@) {
                Ok(f) => match crate::pdu::parse_action_request(f.information) {
                    Some(req) => (f.information.len() <= old(self).params().max_receive_pdu_size
                        && crate::acse::parse_aarq(f.information) is None
                        && crate::acse::parse_release(f.information, crate::acse::TAG_RLRQ) is None
                        && crate::pdu::parse_get_request(f.information) is None
                        && crate::pdu::parse_set_request(f.information) is None && old(self).has_context(f.address))
                        ==> ((!old(self).name_known(f.address, req.descriptor.instance_id) ==> r is Err) && (r matches Ok(b)
                        ==> crate::hdlc::parse_hdlc(b@) matches Ok(g) && g.information.len() >= 2
                        && g.information[0] == crate::pdu::TAG_ACTION_RESPONSE_NORMAL && g.information[1] == req.invoke)),
                    None => true,
                },
                Err(_) => true,
            },
            match crate::hdlc::parse_hdlc(request_bytes@) {
                Ok(f) => match crate::acse::parse_aarq(f.information) {
                    Some((m, _)) => (f.information.len() <= old(self).params().max_receive_pdu_size
                        && aarq_initiate(m) is Some) ==> ({
                        let x = final(self).aarq_reply(*old(self), f.address, m);
                        &&& final(self).aarq_outcome(*old(self), f.address, m, r is Ok)
                        &&& (r matches Ok(b) ==> crate::hdlc::parse_hdlc(b@) matches Ok(g)
                            && crate::acse::parse_aare(g.information) == Some((x, crate::acse::aare_bytes(x).len() as int)))
                        &&& (negotiation_outcome(old(self).params(), aarq_initiate(m)->0) is Err ==> r is Ok)
                        &&& (!old(self).asks_challenge(m) && crate::acse::aare_bytes(x).len()
                            <= aarq_initiate(m)->0.client_max_receive_pdu_size ==> r is Ok)
                    }),
                    None => true,
                },
                Err(_) => true,
            },
            match crate::hdlc::parse_hdlc(request_bytes@) {
                Ok(f) => match crate::acse::parse_release(f.information, crate::acse::TAG_RLRQ) {
                    Some((m, _)) => (f.information.len() <= old(self).params().max_receive_pdu_size
                        && crate::acse::parse_aarq(f.information) is None) ==> ({
                        let x = released_model(m);
                        let out = crate::acse::frame_bytes(crate::acse::TAG_RLRE, crate::acse::release_content(x));
                        &&& final(self).others_unchanged(*old(self), f.address)
                        &&& (r matches Ok(b) ==> crate::hdlc::parse_hdlc(b@) matches Ok(g)
                            && crate::acse::parse_release(g.information, crate::acse::TAG_RLRE) == Some((x, out.len() as int)))
                        &&& (out.len() <= old(self).params().max_receive_pdu_size ==> r is Ok)
                    }),
                    None => true,
                },
                Err(_) => true,
            },
            match crate::hdlc::parse_hdlc(request_bytes@) {
                Ok(f) => match crate::pdu::parse_get_request(f.information) {
                    Some(crate::pdu::GetRequestModel::Normal { invoke, .. }) => (f.information.len()
                        <= old(self).params().max_receive_pdu_size && crate::acse::parse_aarq(
                        f.information,
                    ) is None && crate::acse::parse_release(f.information, crate::acse::TAG_RLRQ)
                        is None && !old(self).has_context(f.address)
                        && old(self).params().max_receive_pdu_size >= 4) ==> (r matches Ok(b)
                        && crate::hdlc::parse_hdlc(b@) matches Ok(g)
                        && crate::pdu::parse_get_response(g.information) == Some(
                        GetResponseModel::Normal {
                            invoke,
                            result: GetDataResultModel::AccessResult(DataAccessResult::ReadWriteDenied),
                        },
                    )),
                    _ => true,
                },
                Err(_) => true,
            },
            match crate::hdlc::parse_hdlc(request_bytes@) {
                Ok(f) => match crate::pdu::parse_set_request(f.information) {
                    Some(req) => (f.information.len() <= old(self).params().max_receive_pdu_size
                        && crate::acse::parse_aarq(f.information) is None
                        && crate::acse::parse_release(f.information, crate::acse::TAG_RLRQ) is None
                        && crate::pdu::parse_get_request(f.information) is None && !old(
                        self,
                    ).has_context(f.address) && old(self).params().max_receive_pdu_size >= 3) ==> (
                    r matches Ok(b) && crate::hdlc::parse_hdlc(b@) matches Ok(g)
                        && crate::pdu::parse_set_response(g.information) == Some(
                        SetResponseNormal {
                            invoke_id_and_priority: req.invoke,
                            result: DataAccessResult::ReadWriteDenied,
                        },
                    )),
                    None => true,
                },
                Err(_) => true,
            },
            match crate::hdlc::parse_hdlc(request_bytes@) {
                Ok(f) => match crate::pdu::parse_action_request(f.information) {
                    Some(req) => (f.information.len() <= old(self).params().max_receive_pdu_size
                        && crate::acse::parse_aarq(f.information) is None
                        && crate::acse::parse_release(f.information, crate::acse::TAG_RLRQ) is None
                        && crate::pdu::parse_get_request(f.information) is None
                        && crate::pdu::parse_set_request(f.information) is None && !old(
                        self,
                    ).has_context(f.address) && old(self).params().max_receive_pdu_size >= 4) ==> (
                    r matches Ok(b) && crate::hdlc::parse_hdlc(b@) matches Ok(g)
                        && crate::pdu::parse_action_response(g.information) == Some(
                        crate::pdu::ActionResponseModel {
                            invoke: req.invoke,
                            result: ActionResult::ReadWriteDenied,
                            return_parameters: None,
                        },
                    )),
                    None => true,
                },
                Err(_) => true,
            },
    {
        let frame = match HdlcFrame::from_bytes(request_bytes) {
            Ok(f) => f,
            Err(e) => {
                return Err(ServerError::DlmsError(e));
            },
        };
        if frame.information.len() > self.association_parameters.max_receive_pdu_size as usize {
            return Err(ServerError::DlmsError(DlmsError::Xdlms));
        }
        let sap = frame.address;
        let info = frame.information.as_slice();
        let mut pending: Option<u16> = None;
        let ghost mut sent_aare: Option<AareModel> = None;
        let ghost mut sent_rlre: Option<crate::acse::ReleaseModel> = None;
        proof {
            crate::acse::lemma_aarq_name_len(info@);
            crate::acse::lemma_release_ui_len(info@, crate::acse::TAG_RLRQ);
        }
        let response: Vec<u8> = match AarqApdu::from_bytes(info) {
            Ok((_, aarq)) => {
                let ghost before = *self;
                let (bytes, limit, refused) = self.answer_aarq(sap, &aarq)?;
                proof {
                    sent_aare = Some(self.aarq_reply(before, sap, aarq@));
                }
                if refused {
                    let r = self.build_response_frame(bytes);
                    proof {
                        crate::acse::law_aare_round_trip(self.aarq_reply(before, sap, aarq@));
                        if r is Ok {
                            crate::hdlc::law_hdlc_round_trip(crate::hdlc::HdlcFrameModel { address: self.address, control: 0, information: bytes@ });
                        }
                    }
                    return r;
                }
                pending = Some(limit);
                bytes
            },
            Err(_) => match ArlrqApdu::from_bytes(info) {
                Ok((_, release)) => {
                    proof {
                        sent_rlre = Some(released_model(release@));
                    }
                    self.answer_release(sap, release)?
                },
                Err(_) => match GetRequest::from_bytes(info) {
                    Ok(GetRequest::Normal(request)) => {
                        let response = self.process_get(sap, &request)?;
                        match response.to_bytes() {
                            Ok(b) => b,
                            Err(e) => {
                                return Err(ServerError::DlmsError(e));
                            },
                        }
                    },
                    Ok(_) => {
                        return Err(ServerError::DlmsError(DlmsError::Xdlms));
                    },
                    Err(_) => match SetRequest::from_bytes(info) {
                        Ok(SetRequest::Normal(request)) => {
                            let response = self.process_set(sap, request)?;
                            match response.to_bytes() {
                                Ok(b) => b,
                                Err(e) => {
                                    return Err(ServerError::DlmsError(e));
                                },
                            }
                        },
                        Ok(_) => {
                            return Err(ServerError::DlmsError(DlmsError::Xdlms));
                        },
                        Err(_) => match ActionRequest::from_bytes(info) {
                            Ok(ActionRequest::Normal(request)) => {
                                let response = self.process_action(sap, request)?;
                                match response.to_bytes() {
                                    Ok(b) => b,
                                    Err(e) => {
                                        return Err(ServerError::DlmsError(e));
                                    },
                                }
                            },
                            _ => {
                                return Err(ServerError::DlmsError(DlmsError::Xdlms));
                            },
                        },
                    },
                },
            },
        };
        let limit: u16 = match pending {
            Some(l) => l,
            None => match self.active_associations.get(&sap) {
                Some(context) => context.client_max_receive_pdu_size,
                None => self.association_parameters.max_receive_pdu_size,
            },
        };
        if response.len() > limit as usize {
            return Err(ServerError::DlmsError(DlmsError::Xdlms));
        }
        let ghost information = response@;
        let r = self.build_response_frame(response);
        proof {
            crate::pdu::law_get_response_round_trip(
                GetResponseModel::Normal {
                    invoke: if information.len() > 1 { information[1] } else { 0 },
                    result: GetDataResultModel::AccessResult(DataAccessResult::ReadWriteDenied),
                },
            );
            crate::pdu::law_set_response_round_trip(
                SetResponseNormal {
                    invoke_id_and_priority: if information.len() > 1 { information[1] } else { 0 },
                    result: DataAccessResult::ReadWriteDenied,
                },
            );
            crate::pdu::law_action_response_round_trip(
                crate::pdu::ActionResponseModel {
                    invoke: if information.len() > 1 { information[1] } else { 0 },
                    result: ActionResult::ReadWriteDenied,
                    return_parameters: None,
                },
            );
            if let Some(x) = sent_aare {
                crate::acse::law_aare_round_trip(x);
            }
            if let Some(x) = sent_rlre {
                crate::acse::law_release_round_trip(crate::acse::TAG_RLRE, x);
            }
            if r is Ok {
                crate::hdlc::law_hdlc_round_trip(crate::hdlc::HdlcFrameModel { address: self.address, control: 0, information });
            }
        }
        r
    }

    /// One turn of the server: receives a frame, handles it, sends the
    /// response; with a key, both are sealed with AES-GCM.
    pub fn serve_one(&mut self) -> (r: Result<(), ServerError<T::Error>>)
        requires
            old(self).wf(),
        ensures
            final(self).wf(),
    {
        let received = match self.transport.receive() {
            Ok(b) => b,
            Err(e) => {
                return Err(ServerError::TransportError(e));
            },
        };
        let request = match &self.key {
            Some(key) => match crate::security::hls_decrypt(received.as_slice(), key.as_slice()) {
                Ok(p) => p,
                Err(e) => {
                    return Err(ServerError::SecurityError(e));
                },
            },
            None => received,
        };
        let response = self.handle_frame(request.as_slice())?;
        let outgoing = match &self.key {
            Some(key) => match crate::security::hls_encrypt(response.as_slice(), key.as_slice()) {
                Ok(c) => c,
                Err(e) => {
                    return Err(ServerError::SecurityError(e));
                },
            },
            None => response,
        };
        match self.transport.send(outgoing.as_slice()) {
            Ok(()) => Ok(()),
            Err(e) => Err(ServerError::TransportError(e)),
        }
    }

    /// Whether an object is registered under `logical_name`.
    pub closed spec fn is_registered(&self, logical_name: Seq<u8>) -> bool {
        exists|j: int| 0 <= j < self.objects@.len() && (#[trigger] self.objects@[j]).0@ == logical_name
    }

    /// The registered object named `logical_name`.
    pub fn object(&self, logical_name: &[u8; 6]) -> (r: Option<&O>)
        ensures
            r is None <==> !self.is_registered(logical_name@),
    {
        let mut i: usize = 0;
        while i < self.objects.len()
            invariant
                i <= self.objects@.len(),
                forall|j: int| 0 <= j < i ==> (#[trigger] self.objects@[j]).0@ != logical_name@,
            decreases self.objects.len() - i,
        {
            if same_logical_name(&self.objects[i].0, logical_name) {
                assert(self.objects@[i as int].0@ == logical_name@);
                return Some(&self.objects[i].1);
            }
            i = i + 1;
        }
        None
    }

    /// The receive limit that the client at `sap` negotiated, while it is
    /// associated.
    pub fn association_client_limit(&self, sap: u16) -> (r: Option<u16>)
        ensures
            self.has_context(sap) ==> r == Some(self.context_limit(sap)),
            !self.has_context(sap) ==> r is None,
    {
        match self.active_associations.get(&sap) {
            Some(context) => Some(context.client_max_receive_pdu_size),
            None => None,
        }
    }

    /// Whether `logical_name` leads somewhere for the client at `sap`: to
    /// its own Association LN, a registered object or a template.
    pub closed spec fn name_known(&self, sap: u16, logical_name: Seq<u8>) -> bool {
        ||| (self.association_logical_names@.contains_key(sap)
            && self.association_logical_names@[sap]@ == logical_name
            && self.client_association_instances@.contains_key(sap))
        ||| exists|j: int| 0 <= j < self.objects@.len() && (#[trigger] self.objects@[j]).0@ == logical_name
        ||| exists|j: int|
            0 <= j < self.association_templates@.len()
                && (#[trigger] self.association_templates@[j]).0@ == logical_name
    }

    /// Whether `aarq` asks this server for a fresh LLS challenge after a
    /// passing negotiation.
    pub open spec fn asks_challenge(&self, aarq: AarqModel) -> bool {
        negotiation_outcome(self.params(), aarq_initiate(aarq)->0) is Ok && lls_issue(self.password_spec(), aarq)
    }

    /// What answering `aarq` from the client at `a` does to the state, from
    /// `old` to this one; `answered` says whether a response was produced.
    pub open spec fn aarq_outcome(&self, old: Self, a: u16, aarq: AarqModel, answered: bool) -> bool {
        let req = aarq_initiate(aarq)->0;
        let p = old.params();
        let pw = old.password_spec();
        let pending = old.challenge_of(a);
        &&& self.others_unchanged(old, a)
        &&& (aarq_establishes(p, pw, pending, aarq) ==> self.has_context(a) && self.context_limit(a)
            == req.client_max_receive_pdu_size && self.challenge_of(a) is None
            && self.instance_partners_id(a) == Some(partners_id_of(a, old.server_address())))
        &&& (!aarq_establishes(p, pw, pending, aarq) && !old.asks_challenge(aarq) ==> !self.has_context(a)
            && self.challenge_of(a) == expected_pending(p, pw, pending, aarq))
        &&& (old.asks_challenge(aarq) && answered ==> !self.has_context(a) && (self.challenge_of(a) matches Some(c)
            && c.len() == CHALLENGE_LEN))
    }

    /// The AARE that answers `aarq` from the client at `a`, the challenge
    /// issued (if any) being the one pending in this state.
    pub open spec fn aarq_reply(&self, old: Self, a: u16, aarq: AarqModel) -> AareModel {
        let issued = match self.challenge_of(a) {
            Some(c) => c,
            None => Seq::empty(),
        };
        expected_aare(old.params(), old.password_spec(), old.challenge_of(a), issued, aarq)
    }

    /// Answers an AARQ from the client at `sap` with the encoded AARE, the
    /// client's receive limit and whether negotiation refused it.
    fn answer_aarq(&mut self, sap: u16, aarq: &AarqApdu) -> (r: Result<(Vec<u8>, u16, bool), ServerError<T::Error>>)
        requires
            old(self).wf(),
            aarq@.application_context_name.len() <= 0xFFFF,
        ensures
            final(self).wf(),
            final(self).server_address() == old(self).server_address(),
            final(self).params() == old(self).params(),
            aarq_initiate(aarq@) is None ==> r is Err,
            aarq_initiate(aarq@) is Some ==> final(self).aarq_outcome(*old(self), sap, aarq@, r is Ok),
            r matches Ok((b, limit, refused)) ==> b@ == crate::acse::aare_bytes(final(self).aarq_reply(*old(self), sap, aarq@))
                && crate::acse::aare_fits(final(self).aarq_reply(*old(self), sap, aarq@))
                && limit == aarq_initiate(aarq@)->0.client_max_receive_pdu_size
                && refused == negotiation_outcome(old(self).params(), aarq_initiate(aarq@)->0) is Err,
            aarq_initiate(aarq@) is Some && !old(self).asks_challenge(aarq@) ==> r is Ok,
    {
        let (aare, limit, refused) = self.process_aarq(sap, aarq)?;
        proof {
            crate::acse::lemma_aare_fits(aare@);
        }
        let bytes = match aare.to_bytes() {
            Ok(b) => b,
            Err(e) => {
                return Err(ServerError::DlmsError(e));
            },
        };
        Ok((bytes, limit, refused))
    }

    /// Answers an RLRQ from the client at `sap` with the encoded RLRE.
    fn answer_release(&mut self, sap: u16, request: ArlrqApdu) -> (r: Result<Vec<u8>, ServerError<T::Error>>)
        requires
            old(self).wf(),
            request.user_information matches Some(v) ==> v@.len() <= 0xFFFF,
        ensures
            final(self).wf(),
            final(self).server_address() == old(self).server_address(),
            final(self).params() == old(self).params(),
            !final(self).has_context(sap),
            final(self).challenge_of(sap) is None,
            final(self).others_unchanged(*old(self), sap),
            r matches Ok(b) && b@ == crate::acse::frame_bytes(crate::acse::TAG_RLRE, crate::acse::release_content(
                released_model(request@),
            )) && crate::acse::release_fits(released_model(request@)),
    {
        let rlre = self.process_release(sap, request);
        proof {
            crate::acse::lemma_release_fits(rlre@);
        }
        match rlre.to_bytes() {
            Ok(b) => Ok(b),
            Err(e) => Err(ServerError::DlmsError(e)),
        }
    }

    /// The logical names in the object list: registered objects in order,
    /// then the Association LN templates.
    pub closed spec fn registry_names(&self) -> Seq<Seq<u8>> {
        self.objects@.map_values(|e: ([u8; 6], O)| e.0@) + self.association_templates@.map_values(
            |e: ([u8; 6], AssociationLN)| e.0@,
        )
    }

    /// How many objects the object list holds: registered objects and
    /// Association LN templates.
    pub closed spec fn registry_len(&self) -> nat {
        self.objects@.len() + self.association_templates@.len()
    }

    /// Every client but the one at `sap` keeps its association, limit and
    /// challenge as in `other`.
    pub closed spec fn others_unchanged(&self, other: Self, sap: u16) -> bool {
        forall|s: u16|
            s != sap ==> (#[trigger] self.has_context(s) == other.has_context(s)
                && self.context_limit(s) == other.context_limit(s) && self.challenge_of(s)
                == other.challenge_of(s))
    }

    /// The association state of every client is as in `other`.
    pub closed spec fn same_session_state(&self, other: Self) -> bool {
        &&& self.address == other.address
        &&& self.association_parameters == other.association_parameters
        &&& self.password == other.password
        &&& self.active_associations@ == other.active_associations@
        &&& self.lls_challenges@ == other.lls_challenges@
    }
}

/// Some template is the public Association LN.
pub open spec fn templates_have_public(t: Seq<([u8; 6], AssociationLN)>) -> bool {
    exists|j: int| 0 <= j < t.len() && (#[trigger] t[j]).0@ == association_ln_spec(1)
}

proof fn lemma_template_replaced(t: Seq<([u8; 6], AssociationLN)>, i: int, x: ([u8; 6], AssociationLN))
    requires
        0 <= i < t.len(),
        x.0@ == t[i].0@,
    ensures
        templates_have_public(t) ==> templates_have_public(t.update(i, x)),
{
    if templates_have_public(t) {
        let j = choose|j: int| 0 <= j < t.len() && (#[trigger] t[j]).0@ == association_ln_spec(1);
        assert(t.update(i, x)[j].0@ == association_ln_spec(1));
    }
}

/// Whether `j` is the first entry named `n`.
pub open spec fn is_first_named<O>(objs: Seq<([u8; 6], O)>, n: Seq<u8>, j: int) -> bool {
    0 <= j < objs.len() && objs[j].0@ == n && forall|k: int| 0 <= k < j ==> (#[trigger] objs[k]).0@ != n
}

/// The object of the first entry named `n`.
pub open spec fn first_named<O>(objs: Seq<([u8; 6], O)>, n: Seq<u8>) -> Option<O> {
    if exists|j: int| is_first_named(objs, n, j) {
        Some(objs[choose|j: int| is_first_named(objs, n, j)].1)
    } else {
        None
    }
}

proof fn lemma_first_unique<O>(objs: Seq<([u8; 6], O)>, n: Seq<u8>, j1: int, j2: int)
    requires
        is_first_named(objs, n, j1),
        is_first_named(objs, n, j2),
    ensures
        j1 == j2,
{
    if j1 < j2 {
        assert(objs[j1].0@ == n);
    } else if j2 < j1 {
        assert(objs[j2].0@ == n);
    }
}

proof fn lemma_first_named_replaced<O>(objs: Seq<([u8; 6], O)>, i: int, x: ([u8; 6], O))
    requires
        0 <= i < objs.len(),
        objs[i].0@ == x.0@,
        forall|k: int| 0 <= k < i ==> (#[trigger] objs[k]).0@ != x.0@,
    ensures
        first_named(objs.update(i, x), x.0@) == Some(x.1),
        forall|n: Seq<u8>| n != x.0@ ==> #[trigger] first_named(objs.update(i, x), n) == first_named(objs, n),
{
    let t = objs.update(i, x);
    assert(is_first_named(t, x.0@, i));
    let c = choose|j: int| is_first_named(t, x.0@, j);
    lemma_first_unique(t, x.0@, i, c);
    assert forall|n: Seq<u8>| n != x.0@ implies #[trigger] first_named(t, n) == first_named(objs, n) by {
        assert forall|j: int| is_first_named(t, n, j) <==> is_first_named(objs, n, j) by {
            if 0 <= j < objs.len() {
                assert(t[j].0@ == objs[j].0@);
                assert forall|k: int| 0 <= k < j implies (#[trigger] t[k]).0@ == objs[k].0@ by {
                    if k == i {
                        assert(t[k] == x);
                    }
                }
                if is_first_named(t, n, j) {
                    assert forall|k: int| 0 <= k < j implies (#[trigger] objs[k]).0@ != n by {
                        assert(t[k].0@ != n);
                    }
                }
                if is_first_named(objs, n, j) {
                    assert forall|k: int| 0 <= k < j implies (#[trigger] t[k]).0@ != n by {
                        assert(objs[k].0@ != n);
                    }
                }
            }
        }
        if exists|j: int| is_first_named(objs, n, j) {
            let a = choose|j: int| is_first_named(objs, n, j);
            let b = choose|j: int| is_first_named(t, n, j);
            assert(is_first_named(t, n, a));
            lemma_first_unique(t, n, a, b);
            assert(a != i);
        }
    }
}

proof fn lemma_first_named_pushed<O>(objs: Seq<([u8; 6], O)>, x: ([u8; 6], O))
    requires
        forall|k: int| 0 <= k < objs.len() ==> (#[trigger] objs[k]).0@ != x.0@,
    ensures
        first_named(objs.push(x), x.0@) == Some(x.1),
        forall|n: Seq<u8>| n != x.0@ ==> #[trigger] first_named(objs.push(x), n) == first_named(objs, n),
{
    let t = objs.push(x);
    assert(is_first_named(t, x.0@, objs.len() as int));
    let c = choose|j: int| is_first_named(t, x.0@, j);
    lemma_first_unique(t, x.0@, objs.len() as int, c);
    assert forall|n: Seq<u8>| n != x.0@ implies #[trigger] first_named(t, n) == first_named(objs, n) by {
        assert forall|j: int| is_first_named(t, n, j) <==> is_first_named(objs, n, j) by {
            if 0 <= j < objs.len() {
                assert(t[j] == objs[j]);
                assert forall|k: int| 0 <= k < j implies (#[trigger] t[k]) == objs[k] by {}
                if is_first_named(t, n, j) {
                    assert forall|k: int| 0 <= k < j implies (#[trigger] objs[k]).0@ != n by {
                        assert(t[k].0@ != n);
                    }
                }
                if is_first_named(objs, n, j) {
                    assert forall|k: int| 0 <= k < j implies (#[trigger] t[k]).0@ != n by {
                        assert(objs[k].0@ != n);
                    }
                }
            } else if j == objs.len() {
                assert(t[j] == x);
            }
        }
        if exists|j: int| is_first_named(objs, n, j) {
            let a = choose|j: int| is_first_named(objs, n, j);
            let b = choose|j: int| is_first_named(t, n, j);
            assert(is_first_named(t, n, a));
            lemma_first_unique(t, n, a, b);
        }
    }
}

/// A server never holds a pending challenge and an association for the same
/// client at once.
pub proof fn lemma_challenge_excludes_context<T: Transport, O: CosemObject>(server: Server<T, O>, sap: u16)
    requires
        server.wf(),
    ensures
        !(server.has_context(sap) && server.challenge_of(sap) is Some),
{
}

/// The partners id that stamps the Association LN instance of a client.
pub open spec fn partners_id_of(client_sap: u16, server_sap: u16) -> u32 {
    (client_sap as u32 * 0x1_0000 + server_sap as u32) as u32
}

/// Two different clients of one server get different partners ids.
pub proof fn law_partners_ids_differ(first: u16, second: u16, server_sap: u16)
    requires
        first != second,
    ensures
        partners_id_of(first, server_sap) != partners_id_of(second, server_sap),
{
}

/// The InitiateResponse that a refused AARE carries: the server's own
/// parameters and conformance.
pub open spec fn nominal_response(params: AssociationParameters) -> InitiateResponse {
    InitiateResponse {
        negotiated_quality_of_service: params.quality_of_service,
        negotiated_dlms_version_number: params.dlms_version,
        negotiated_conformance: params.conformance,
        server_max_receive_pdu_size: params.max_receive_pdu_size,
        vaa_name: crate::xdlms::VAA_NAME_LN,
    }
}

/// The AARE that accepts `aarq` with the negotiated `resp`.
pub open spec fn accepted_aare(aarq: AarqModel, resp: InitiateResponse) -> AareModel {
    AareModel {
        application_context_name: aarq.application_context_name,
        result: 0,
        result_source_diagnostic: 0,
        responding_authentication_value: None,
        user_information: user_information_bytes(initiate_response_bytes(resp)),
    }
}

/// The AARE that issues the LLS challenge `c`.
pub open spec fn challenge_aare(aarq: AarqModel, resp: InitiateResponse, c: Seq<u8>) -> AareModel {
    AareModel { responding_authentication_value: Some(c), ..accepted_aare(aarq, resp) }
}

/// The AARE that refuses an LLS response.
pub open spec fn failed_aare(aarq: AarqModel, resp: InitiateResponse) -> AareModel {
    AareModel { result: 1, ..accepted_aare(aarq, resp) }
}

/// The AARE that refuses `aarq` in negotiation, with the diagnostic of `e`.
pub open spec fn refused_aare(aarq: AarqModel, params: AssociationParameters, e: InitiateValidationError) -> AareModel {
    AareModel {
        application_context_name: aarq.application_context_name,
        result: 1,
        result_source_diagnostic: diagnostic_code(e),
        responding_authentication_value: None,
        user_information: user_information_bytes(initiate_response_bytes(nominal_response(params))),
    }
}

/// The RLRE model that answers an RLRQ: its reason (0 when none) and its
/// user-information.
pub open spec fn released_model(request: crate::acse::ReleaseModel) -> crate::acse::ReleaseModel {
    crate::acse::ReleaseModel {
        reason: Some(
            match request.reason {
                Some(v) => v,
                None => 0u8,
            },
        ),
        user_information: request.user_information,
    }
}

/// The InitiateRequest inside an AARQ's user-information, if it reads.
pub open spec fn aarq_initiate(aarq: AarqModel) -> Option<crate::xdlms::InitiateRequestModel> {
    match parse_user_information(aarq.user_information) {
        Some(a) => parse_initiate_request(a),
        None => None,
    }
}

/// The LLS exchange applies when the server has a password and the client
/// names the LLS mechanism.
pub open spec fn lls_applies(password: Option<Seq<u8>>, aarq: AarqModel) -> bool {
    &&& password is Some
    &&& aarq.mechanism_name == Some(lls_mechanism_spec())
}

/// The AARQ asks for a fresh LLS challenge.
pub open spec fn lls_issue(password: Option<Seq<u8>>, aarq: AarqModel) -> bool {
    lls_applies(password, aarq) && aarq.calling_authentication_value is None
}

/// Whether answering `aarq` establishes an association: negotiation passes
/// and, where LLS applies, the authentication value is the HMAC of the
/// pending challenge.
pub open spec fn aarq_establishes(
    params: AssociationParameters,
    password: Option<Seq<u8>>,
    pending: Option<Seq<u8>>,
    aarq: AarqModel,
) -> bool {
    match aarq_initiate(aarq) {
        Some(req) => negotiation_outcome(params, req) is Ok && (!lls_applies(password, aarq) || match aarq.calling_authentication_value {
            Some(a) => pending matches Some(c) && a == hmac_sha256_of(password->0, c),
            None => false,
        }),
        None => false,
    }
}

/// The AARE that answers `aarq`; `issued` is the challenge handed out when
/// the client asks for one.
pub open spec fn expected_aare(
    params: AssociationParameters,
    password: Option<Seq<u8>>,
    pending: Option<Seq<u8>>,
    issued: Seq<u8>,
    aarq: AarqModel,
) -> AareModel {
    match negotiation_outcome(params, aarq_initiate(aarq)->0) {
        Err(e) => refused_aare(aarq, params, e),
        Ok(resp) => if lls_issue(password, aarq) {
            challenge_aare(aarq, resp, issued)
        } else if aarq_establishes(params, password, pending, aarq) {
            accepted_aare(aarq, resp)
        } else {
            failed_aare(aarq, resp)
        },
    }
}

/// The challenge left pending after an AARQ that neither asks for one nor
/// is refused in negotiation: a failed LLS response keeps it, anything
/// else clears it.
pub open spec fn expected_pending(
    params: AssociationParameters,
    password: Option<Seq<u8>>,
    pending: Option<Seq<u8>>,
    aarq: AarqModel,
) -> Option<Seq<u8>> {
    if negotiation_outcome(params, aarq_initiate(aarq)->0) is Ok && lls_applies(password, aarq)
        && !aarq_establishes(params, password, pending, aarq) {
        pending
    } else {
        None
    }
}

} // verus!

use vstd::prelude::*;

use crate::cosem::{CosemObjectAttributeId, CosemObjectMethodId};
use crate::cosem_object::{
    attribute_mode_code, AttributeAccessDescriptor, AttributeAccessMode, CosemObject,
    MethodAccessDescriptor, MethodAccessMode,
};
use crate::types::{
    copy_bytes, copy_data, elems_model, lemma_elems_model_push, CosemData, DataModel,
};

verus! {

/// One row of the object list: an object's class, version, logical name and
/// access rights.
#[derive(Debug, Clone, PartialEq)]
pub struct ObjectListEntry {
    pub class_id: u16,
    pub version: u8,
    pub logical_name: [u8; 6],
    pub attribute_access: Vec<AttributeAccessDescriptor>,
    pub method_access: Vec<MethodAccessDescriptor>,
}

pub open spec fn method_mode_code(m: MethodAccessMode) -> u8 {
    match m {
        MethodAccessMode::NoAccess => 0,
        MethodAccessMode::Access => 1,
    }
}

/// An attribute right as a structure: id, mode, selective access (or null).
pub open spec fn attribute_right_data(d: AttributeAccessDescriptor) -> DataModel {
    DataModel::Structure(
        seq![
            DataModel::Integer(d.attribute_id),
            DataModel::Enum(attribute_mode_code(d.access_mode)),
            match d.selective_access_descriptor {
                Some(s) => s@,
                None => DataModel::NullData,
            },
        ],
    )
}

/// A method right as a structure: id and mode.
pub open spec fn method_right_data(d: MethodAccessDescriptor) -> DataModel {
    DataModel::Structure(
        seq![DataModel::Integer(d.method_id), DataModel::Enum(method_mode_code(d.access_mode))],
    )
}

/// An entry as a four-field structure whose last field holds the attribute
/// rights, an empty placeholder and the method rights.
pub open spec fn entry_data(e: ObjectListEntry) -> DataModel {
    DataModel::Structure(
        seq![
            DataModel::LongUnsigned(e.class_id),
            DataModel::Unsigned(e.version),
            DataModel::OctetString(e.logical_name@),
            DataModel::Structure(
                seq![
                    DataModel::Array(e.attribute_access@.map_values(|d| attribute_right_data(d))),
                    DataModel::Array(Seq::empty()),
                    DataModel::Array(e.method_access@.map_values(|d| method_right_data(d))),
                ],
            ),
        ],
    )
}

fn push_data(v: &mut Vec<CosemData>, d: CosemData)
    ensures
        final(v)@ == old(v)@.push(d),
        elems_model(final(v)@) == elems_model(old(v)@).push(d@),
{
    proof {
        lemma_elems_model_push(v@, d);
    }
    v.push(d);
}

fn new_elems() -> (r: Vec<CosemData>)
    ensures
        r@.len() == 0,
        elems_model(r@) == Seq::<DataModel>::empty(),
{
    let v: Vec<CosemData> = Vec::new();
    assert(elems_model(v@) =~= Seq::<DataModel>::empty());
    v
}

fn attribute_right_to_data(d: &AttributeAccessDescriptor) -> (r: CosemData)
    ensures
        r@ == attribute_right_data(*d),
{
    let mut v = new_elems();
    push_data(&mut v, CosemData::Integer(d.attribute_id));
    push_data(&mut v, CosemData::Enum(d.access_mode.code()));
    let sel = match &d.selective_access_descriptor {
        Some(s) => copy_data(s),
        None => CosemData::NullData,
    };
    assert(sel@ == match d.selective_access_descriptor {
        Some(s) => s@,
        None => DataModel::NullData,
    });
    push_data(&mut v, sel);
    let ghost want = seq![
        DataModel::Integer(d.attribute_id),
        DataModel::Enum(attribute_mode_code(d.access_mode)),
        sel@,
    ];
    assert(elems_model(v@) =~= want);
    let r = CosemData::Structure(v);
    assert(r@ == DataModel::Structure(elems_model(v@)));
    assert(want =~= seq![
        DataModel::Integer(d.attribute_id),
        DataModel::Enum(attribute_mode_code(d.access_mode)),
        match d.selective_access_descriptor {
            Some(s) => s@,
            None => DataModel::NullData,
        },
    ]);
    r
}

fn method_right_to_data(d: &MethodAccessDescriptor) -> (r: CosemData)
    ensures
        r@ == method_right_data(*d),
{
    let mut v = new_elems();
    push_data(&mut v, CosemData::Integer(d.method_id));
    let code: u8 = match d.access_mode {
        MethodAccessMode::NoAccess => 0,
        MethodAccessMode::Access => 1,
    };
    push_data(&mut v, CosemData::Enum(code));
    assert(elems_model(v@) =~= seq![
        DataModel::Integer(d.method_id),
        DataModel::Enum(method_mode_code(d.access_mode)),
    ]);
    CosemData::Structure(v)
}

impl ObjectListEntry {
    /// The entry as the object list presents it.
    pub fn to_cosem_data(&self) -> (r: CosemData)
        ensures
            r@ == entry_data(*self),
    {
        let mut attributes = new_elems();
        let mut i: usize = 0;
        while i < self.attribute_access.len()
            invariant
                i <= self.attribute_access@.len(),
                elems_model(attributes@) == self.attribute_access@.subrange(0, i as int).map_values(
                    |d| attribute_right_data(d),
                ),
            decreases self.attribute_access.len() - i,
        {
            let e = attribute_right_to_data(&self.attribute_access[i]);
            push_data(&mut attributes, e);
            assert(self.attribute_access@.subrange(0, i + 1).map_values(
                |d| attribute_right_data(d),
            ) =~= self.attribute_access@.subrange(0, i as int).map_values(
                |d| attribute_right_data(d),
            ).push(e@));
            i = i + 1;
        }
        assert(self.attribute_access@.subrange(0, i as int) =~= self.attribute_access@);
        let mut methods = new_elems();
        let mut j: usize = 0;
        while j < self.method_access.len()
            invariant
                j <= self.method_access@.len(),
                elems_model(methods@) == self.method_access@.subrange(0, j as int).map_values(
                    |d| method_right_data(d),
                ),
            decreases self.method_access.len() - j,
        {
            let e = method_right_to_data(&self.method_access[j]);
            push_data(&mut methods, e);
            assert(self.method_access@.subrange(0, j + 1).map_values(|d| method_right_data(d))
                =~= self.method_access@.subrange(0, j as int).map_values(
                |d| method_right_data(d),
            ).push(e@));
            j = j + 1;
        }
        assert(self.method_access@.subrange(0, j as int) =~= self.method_access@);
        let mut rights = new_elems();
        let ghost am = elems_model(attributes@);
        let ghost mm = elems_model(methods@);
        push_data(&mut rights, CosemData::Array(attributes));
        push_data(&mut rights, CosemData::Array(new_elems()));
        push_data(&mut rights, CosemData::Array(methods));
        let mut fields = new_elems();
        push_data(&mut fields, CosemData::LongUnsigned(self.class_id));
        push_data(&mut fields, CosemData::Unsigned(self.version));
        push_data(&mut fields, CosemData::OctetString(copy_bytes(self.logical_name.as_slice())));
        let ghost rm = elems_model(rights@);
        push_data(&mut fields, CosemData::Structure(rights));
        assert(rm =~= seq![
            DataModel::Array(am),
            DataModel::Array(Seq::empty()),
            DataModel::Array(mm),
        ]);
        assert(elems_model(fields@) =~= seq![
            DataModel::LongUnsigned(self.class_id),
            DataModel::Unsigned(self.version),
            DataModel::OctetString(self.logical_name@),
            DataModel::Structure(rm),
        ]);
        CosemData::Structure(fields)
    }
}

/// Association LN (class 15). Attribute 2 is the object list, which the
/// server refreshes from its registry before each use; 3 the partners id
/// `(client SAP << 16) | server SAP`; 4 the application context name; 5 the
/// xDLMS context information; 6 the authentication mechanism name.
#[derive(Debug)]
pub struct AssociationLN {
    object_list: Vec<ObjectListEntry>,
    associated_partners_id: u32,
    application_context_name: Vec<u8>,
    xdlms_context_info: Vec<u8>,
    authentication_mechanism_name: Vec<u8>,
}

impl AssociationLN {
    pub closed spec fn partners_id(&self) -> u32 {
        self.associated_partners_id
    }

    pub closed spec fn context_name(&self) -> Seq<u8> {
        self.application_context_name@
    }

    pub closed spec fn xdlms_info(&self) -> Seq<u8> {
        self.xdlms_context_info@
    }

    pub closed spec fn mechanism_name(&self) -> Seq<u8> {
        self.authentication_mechanism_name@
    }

    pub fn new(
        object_list: Vec<ObjectListEntry>,
        associated_partners_id: u32,
        application_context_name: Vec<u8>,
        xdlms_context_info: Vec<u8>,
        authentication_mechanism_name: Vec<u8>,
    ) -> (r: Self)
        ensures
            r.partners_id() == associated_partners_id,
            r.context_name() == application_context_name@,
            r.xdlms_info() == xdlms_context_info@,
            r.mechanism_name() == authentication_mechanism_name@,
    {
        Self {
            object_list,
            associated_partners_id,
            application_context_name,
            xdlms_context_info,
            authentication_mechanism_name,
        }
    }

    /// Replaces the object list with a fresh snapshot.
    pub fn set_object_list(&mut self, object_list: Vec<ObjectListEntry>)
        ensures
            final(self).partners_id() == old(self).partners_id(),
            final(self).context_name() == old(self).context_name(),
            final(self).xdlms_info() == old(self).xdlms_info(),
            final(self).mechanism_name() == old(self).mechanism_name(),
    {
        self.object_list = object_list;
    }

    /// The partners id: client SAP in the high half, server SAP in the low.
    pub fn associated_partners_id(&self) -> (r: u32)
        ensures
            r == self.partners_id(),
    {
        self.associated_partners_id
    }

    /// Stamps the partners id.
    pub fn set_associated_partners_id(&mut self, id: u32)
        ensures
            final(self).partners_id() == id,
            final(self).context_name() == old(self).context_name(),
            final(self).xdlms_info() == old(self).xdlms_info(),
            final(self).mechanism_name() == old(self).mechanism_name(),
    {
        self.associated_partners_id = id;
    }

    /// A copy with the same attributes.
    pub fn duplicate(&self) -> (r: Self)
        ensures
            r.partners_id() == self.partners_id(),
            r.context_name() == self.context_name(),
            r.xdlms_info() == self.xdlms_info(),
            r.mechanism_name() == self.mechanism_name(),
    {
        Self {
            object_list: Vec::new(),
            associated_partners_id: self.associated_partners_id,
            application_context_name: copy_bytes(self.application_context_name.as_slice()),
            xdlms_context_info: copy_bytes(self.xdlms_context_info.as_slice()),
            authentication_mechanism_name: copy_bytes(
                self.authentication_mechanism_name.as_slice(),
            ),
        }
    }

    fn reply_to_hls_authentication(&mut self, data: CosemData) -> Option<CosemData> {
        match data {
            CosemData::OctetString(_client_challenge) => {
                let mut reply: Vec<u8> = Vec::new();
                let text = "server_response".as_bytes();
                crate::axdr::append_bytes(&mut reply, text);
                Some(CosemData::OctetString(reply))
            },
            _ => None,
        }
    }
}

impl Default for AssociationLN {
    fn default() -> (r: Self)
        ensures
            r.partners_id() == 0,
    {
        Self::new(Vec::new(), 0, Vec::new(), Vec::new(), Vec::new())
    }
}

impl CosemObject for AssociationLN {
    fn class_id(&self) -> u16 {
        15
    }

    fn version(&self) -> u8 {
        0
    }

    fn attribute_access_rights(&self) -> Vec<AttributeAccessDescriptor> {
        let mut v: Vec<AttributeAccessDescriptor> = Vec::new();
        v.push(AttributeAccessDescriptor::new(2, AttributeAccessMode::Read));
        v.push(AttributeAccessDescriptor::new(3, AttributeAccessMode::ReadWrite));
        v.push(AttributeAccessDescriptor::new(4, AttributeAccessMode::ReadWrite));
        v.push(AttributeAccessDescriptor::new(5, AttributeAccessMode::ReadWrite));
        v.push(AttributeAccessDescriptor::new(6, AttributeAccessMode::ReadWrite));
        v
    }

    fn method_access_rights(&self) -> Vec<MethodAccessDescriptor> {
        let mut v: Vec<MethodAccessDescriptor> = Vec::new();
        v.push(MethodAccessDescriptor::new(1, MethodAccessMode::Access));
        v
    }

    fn get_attribute(&self, attribute_id: CosemObjectAttributeId) -> Option<CosemData> {
        if attribute_id == 2 {
            let mut list: Vec<CosemData> = Vec::new();
            let mut i: usize = 0;
            while i < self.object_list.len()
                invariant
                    i <= self.object_list@.len(),
                decreases self.object_list.len() - i,
            {
                list.push(self.object_list[i].to_cosem_data());
                i = i + 1;
            }
            Some(CosemData::Array(list))
        } else if attribute_id == 3 {
            Some(CosemData::DoubleLongUnsigned(self.associated_partners_id))
        } else if attribute_id == 4 {
            Some(CosemData::OctetString(copy_bytes(self.application_context_name.as_slice())))
        } else if attribute_id == 5 {
            Some(CosemData::OctetString(copy_bytes(self.xdlms_context_info.as_slice())))
        } else if attribute_id == 6 {
            Some(CosemData::OctetString(copy_bytes(self.authentication_mechanism_name.as_slice())))
        } else {
            None
        }
    }

    fn set_attribute(&mut self, attribute_id: CosemObjectAttributeId, data: CosemData) -> Option<()> {
        match data {
            CosemData::DoubleLongUnsigned(id) => {
                if attribute_id == 3 {
                    self.associated_partners_id = id;
                    Some(())
                } else {
                    None
                }
            },
            CosemData::OctetString(v) => {
                if attribute_id == 4 {
                    self.application_context_name = v;
                    Some(())
                } else if attribute_id == 5 {
                    self.xdlms_context_info = v;
                    Some(())
                } else if attribute_id == 6 {
                    self.authentication_mechanism_name = v;
                    Some(())
                } else {
                    None
                }
            },
            _ => None,
        }
    }

    fn invoke_method(&mut self, method_id: CosemObjectMethodId, data: CosemData) -> Option<
        CosemData,
    > {
        if method_id == 1 {
            self.reply_to_hls_authentication(data)
        } else {
            None
        }
    }
}

} // verus!

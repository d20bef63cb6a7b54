use vstd::prelude::*;

use crate::cosem::{CosemObjectAttributeId, CosemObjectMethodId};
use crate::pdu::{ActionResult, DataAccessResult};
use crate::types::{copy_data, CosemData};

verus! {

#[derive(Debug, Clone, Copy, PartialEq, Eq, Structural)]
pub enum AttributeAccessMode {
    NoAccess,
    Read,
    Write,
    ReadWrite,
}

impl AttributeAccessMode {
    /// The mode's code: 0 to 3.
    pub fn code(&self) -> (r: u8)
        ensures
            r == attribute_mode_code(*self),
    {
        match self {
            AttributeAccessMode::NoAccess => 0,
            AttributeAccessMode::Read => 1,
            AttributeAccessMode::Write => 2,
            AttributeAccessMode::ReadWrite => 3,
        }
    }
}

pub open spec fn attribute_mode_code(m: AttributeAccessMode) -> u8 {
    match m {
        AttributeAccessMode::NoAccess => 0,
        AttributeAccessMode::Read => 1,
        AttributeAccessMode::Write => 2,
        AttributeAccessMode::ReadWrite => 3,
    }
}

#[derive(Debug, Clone, PartialEq)]
pub struct AttributeAccessDescriptor {
    pub attribute_id: CosemObjectAttributeId,
    pub access_mode: AttributeAccessMode,
    pub selective_access_descriptor: Option<CosemData>,
}

impl AttributeAccessDescriptor {
    pub fn new(attribute_id: CosemObjectAttributeId, access_mode: AttributeAccessMode) -> (r: Self)
        ensures
            r.attribute_id == attribute_id,
            r.access_mode == access_mode,
            r.selective_access_descriptor is None,
    {
        Self { attribute_id, access_mode, selective_access_descriptor: None }
    }

    pub fn with_selective_access(
        attribute_id: CosemObjectAttributeId,
        access_mode: AttributeAccessMode,
        selective_access_descriptor: Option<CosemData>,
    ) -> (r: Self)
        ensures
            r.attribute_id == attribute_id,
            r.access_mode == access_mode,
            r.selective_access_descriptor == selective_access_descriptor,
    {
        Self { attribute_id, access_mode, selective_access_descriptor }
    }

    /// A copy with the same fields.
    pub fn copy(&self) -> (r: Self)
        ensures
            r.attribute_id == self.attribute_id,
            r.access_mode == self.access_mode,
            match (r.selective_access_descriptor, self.selective_access_descriptor) {
                (Some(a), Some(b)) => a@ == b@,
                (None, None) => true,
                _ => false,
            },
    {
        Self {
            attribute_id: self.attribute_id,
            access_mode: self.access_mode,
            selective_access_descriptor: match &self.selective_access_descriptor {
                Some(d) => Some(copy_data(d)),
                None => None,
            },
        }
    }
}

#[derive(Debug, Clone, Copy, PartialEq, Eq, Structural)]
pub enum MethodAccessMode {
    NoAccess,
    Access,
}

#[derive(Debug, Clone, Copy, PartialEq, Eq, Structural)]
pub struct MethodAccessDescriptor {
    pub method_id: CosemObjectMethodId,
    pub access_mode: MethodAccessMode,
}

impl MethodAccessDescriptor {
    pub fn new(method_id: CosemObjectMethodId, access_mode: MethodAccessMode) -> (r: Self)
        ensures
            r.method_id == method_id,
            r.access_mode == access_mode,
    {
        Self { method_id, access_mode }
    }
}

/// Whether an operation reads or writes an attribute.
#[derive(Debug, Clone, Copy, PartialEq, Eq, Structural)]
pub enum AttributeOperation {
    Read,
    Write,
}

/// The mode that the first descriptor for `id` gives; an attribute without
/// a descriptor has no access.
pub open spec fn attribute_mode_in(rights: Seq<AttributeAccessDescriptor>, id: i8) -> AttributeAccessMode
    decreases rights.len(),
{
    if rights.len() == 0 {
        AttributeAccessMode::NoAccess
    } else if rights[0].attribute_id == id {
        rights[0].access_mode
    } else {
        attribute_mode_in(rights.subrange(1, rights.len() as int), id)
    }
}

pub open spec fn mode_permits(mode: AttributeAccessMode, op: AttributeOperation) -> bool {
    match op {
        AttributeOperation::Read => mode == AttributeAccessMode::Read || mode
            == AttributeAccessMode::ReadWrite,
        AttributeOperation::Write => mode == AttributeAccessMode::Write || mode
            == AttributeAccessMode::ReadWrite,
    }
}

/// A method may be invoked when some descriptor for it grants access.
pub open spec fn method_permitted(rights: Seq<MethodAccessDescriptor>, id: i8) -> bool {
    exists|j: int|
        0 <= j < rights.len() && (#[trigger] rights[j]).method_id == id && rights[j].access_mode
            == MethodAccessMode::Access
}

/// Whether `rights` let `op` touch attribute `id`.
pub fn attribute_operation_allowed(
    rights: &Vec<AttributeAccessDescriptor>,
    attribute_id: CosemObjectAttributeId,
    operation: AttributeOperation,
) -> (r: bool)
    ensures
        r == mode_permits(attribute_mode_in(rights@, attribute_id), operation),
{
    let mut i: usize = 0;
    assert(rights@.subrange(0, rights@.len() as int) =~= rights@);
    while i < rights.len()
        invariant
            i <= rights@.len(),
            attribute_mode_in(rights@, attribute_id) == attribute_mode_in(
                rights@.subrange(i as int, rights@.len() as int),
                attribute_id,
            ),
        decreases rights.len() - i,
    {
        let ghost t = rights@.subrange(i as int, rights@.len() as int);
        assert(t.subrange(1, t.len() as int) =~= rights@.subrange(i + 1, rights@.len() as int));
        if rights[i].attribute_id == attribute_id {
            let mode = rights[i].access_mode;
            return match operation {
                AttributeOperation::Read => mode == AttributeAccessMode::Read || mode
                    == AttributeAccessMode::ReadWrite,
                AttributeOperation::Write => mode == AttributeAccessMode::Write || mode
                    == AttributeAccessMode::ReadWrite,
            };
        }
        i = i + 1;
    }
    false
}

/// Whether `rights` let method `id` be invoked.
pub fn method_operation_allowed(
    rights: &Vec<MethodAccessDescriptor>,
    method_id: CosemObjectMethodId,
) -> (r: bool)
    ensures
        r == method_permitted(rights@, method_id),
{
    let mut i: usize = 0;
    while i < rights.len()
        invariant
            i <= rights@.len(),
            forall|j: int|
                0 <= j < i ==> !((#[trigger] rights@[j]).method_id == method_id
                    && rights@[j].access_mode == MethodAccessMode::Access),
        decreases rights.len() - i,
    {
        if rights[i].method_id == method_id && rights[i].access_mode == MethodAccessMode::Access {
            return true;
        }
        i = i + 1;
    }
    false
}

/// An interface object: its class, its access rights, its attributes and
/// methods, and hooks that run around each operation. The hooks do nothing
/// unless an object overrides them; one that fails gives the code that the
/// response carries.
pub trait CosemObject {
    fn class_id(&self) -> u16;

    fn version(&self) -> u8;

    fn attribute_access_rights(&self) -> Vec<AttributeAccessDescriptor>;

    fn method_access_rights(&self) -> Vec<MethodAccessDescriptor>;

    fn get_attribute(&self, attribute_id: CosemObjectAttributeId) -> Option<CosemData>;

    fn set_attribute(&mut self, attribute_id: CosemObjectAttributeId, data: CosemData) -> Option<
        (),
    >;

    fn invoke_method(&mut self, method_id: CosemObjectMethodId, data: CosemData) -> Option<
        CosemData,
    >;

    fn pre_read(&mut self, attribute_id: CosemObjectAttributeId) -> Result<(), DataAccessResult> {
        Ok(())
    }

    fn post_read(
        &mut self,
        attribute_id: CosemObjectAttributeId,
        result: &mut Option<CosemData>,
    ) -> Result<(), DataAccessResult> {
        Ok(())
    }

    fn pre_write(&mut self, attribute_id: CosemObjectAttributeId, value: &mut CosemData) -> Result<
        (),
        DataAccessResult,
    > {
        Ok(())
    }

    fn post_write(&mut self, attribute_id: CosemObjectAttributeId, value: &CosemData) -> Result<
        (),
        DataAccessResult,
    > {
        Ok(())
    }

    fn pre_action(&mut self, method_id: CosemObjectMethodId, parameters: &mut CosemData) -> Result<
        (),
        ActionResult,
    > {
        Ok(())
    }

    fn post_action(
        &mut self,
        method_id: CosemObjectMethodId,
        result: &mut Option<CosemData>,
    ) -> Result<(), ActionResult> {
        Ok(())
    }
}

} // verus!

use vstd::prelude::*;

use crate::attribute_table::AttributeTable;
use crate::cosem::{CosemObjectAttributeId, CosemObjectMethodId};
use crate::cosem_object::{AttributeAccessDescriptor, CosemObject, MethodAccessDescriptor};
use crate::types::{CosemData, DataModel};

verus! {

/// Disconnect Control (class 70): output state (2) and control mode (3);
/// method 1 disconnects, method 2 reconnects. It grants no access rights.
#[derive(Debug)]
pub struct DisconnectControl {
    attributes: AttributeTable,
}

impl DisconnectControl {
    /// The value of attribute `id`.
    pub closed spec fn attribute(&self, id: i8) -> Option<DataModel> {
        self.attributes.value_of(id)
    }

    pub closed spec fn attribute_count(&self) -> nat {
        self.attributes.size()
    }

    pub fn new() -> (r: Self)
        ensures
            r.attribute_count() == 2,
    {
        let mut attributes = AttributeTable::nulls(2);
        DisconnectControl { attributes }
    }

    /// The output state becomes `false`.
    pub fn remote_disconnect(&mut self) -> (r: Option<CosemData>)
        ensures
            old(self).attribute_count() >= 1 ==> final(self).attribute(2) == Some(
                DataModel::Boolean(false),
            ),
            final(self).attribute_count() == old(self).attribute_count(),
    {
        self.attributes.set(2, CosemData::Boolean(false));
        Some(CosemData::NullData)
    }

    /// The output state becomes `true`.
    pub fn remote_reconnect(&mut self) -> (r: Option<CosemData>)
        ensures
            old(self).attribute_count() >= 1 ==> final(self).attribute(2) == Some(
                DataModel::Boolean(true),
            ),
            final(self).attribute_count() == old(self).attribute_count(),
    {
        self.attributes.set(2, CosemData::Boolean(true));
        Some(CosemData::NullData)
    }
}

impl Default for DisconnectControl {
    fn default() -> Self {
        Self::new()
    }
}

impl CosemObject for DisconnectControl {
    fn class_id(&self) -> u16 {
        70
    }

    fn version(&self) -> u8 {
        0
    }

    fn attribute_access_rights(&self) -> Vec<AttributeAccessDescriptor> {
        Vec::new()
    }

    fn method_access_rights(&self) -> Vec<MethodAccessDescriptor> {
        Vec::new()
    }

    fn get_attribute(&self, attribute_id: CosemObjectAttributeId) -> Option<CosemData> {
        self.attributes.get(attribute_id)
    }

    fn set_attribute(&mut self, attribute_id: CosemObjectAttributeId, data: CosemData) -> Option<()> {
        self.attributes.set(attribute_id, data)
    }

    fn invoke_method(&mut self, method_id: CosemObjectMethodId, data: CosemData) -> Option<
        CosemData,
    > {
        if method_id == 1 {
            self.remote_disconnect()
        } else if method_id == 2 {
            self.remote_reconnect()
        } else {
            None
        }
    }
}

} // verus!

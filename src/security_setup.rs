use vstd::prelude::*;

use crate::cosem::{CosemObjectAttributeId, CosemObjectMethodId};
use crate::cosem_object::{AttributeAccessDescriptor, CosemObject, MethodAccessDescriptor};
use crate::types::{copy_bytes, CosemData};

verus! {

/// Security Setup (class 64): security policy (2) and suite (3) as
/// unsigned values, client (4) and server (5) system titles as octet
/// strings. A value of another kind is refused. It grants no access rights.
#[derive(Debug)]
pub struct SecuritySetup {
    security_policy: u8,
    security_suite: u8,
    client_system_title: Vec<u8>,
    server_system_title: Vec<u8>,
}

impl SecuritySetup {
    pub closed spec fn policy(&self) -> u8 {
        self.security_policy
    }

    pub closed spec fn suite(&self) -> u8 {
        self.security_suite
    }

    pub closed spec fn client_title(&self) -> Seq<u8> {
        self.client_system_title@
    }

    pub closed spec fn server_title(&self) -> Seq<u8> {
        self.server_system_title@
    }

    pub fn new() -> (r: Self)
        ensures
            r.policy() == 0,
            r.suite() == 0,
            r.client_title().len() == 0,
            r.server_title().len() == 0,
    {
        Self {
            security_policy: 0,
            security_suite: 0,
            client_system_title: Vec::new(),
            server_system_title: Vec::new(),
        }
    }
}

impl Default for SecuritySetup {
    fn default() -> Self {
        Self::new()
    }
}

impl CosemObject for SecuritySetup {
    fn class_id(&self) -> u16 {
        64
    }

    fn version(&self) -> u8 {
        0
    }

    fn attribute_access_rights(&self) -> Vec<AttributeAccessDescriptor> {
        Vec::new()
    }

    fn method_access_rights(&self) -> Vec<MethodAccessDescriptor> {
        Vec::new()
    }

    fn get_attribute(&self, attribute_id: CosemObjectAttributeId) -> Option<CosemData> {
        if attribute_id == 2 {
            Some(CosemData::Unsigned(self.security_policy))
        } else if attribute_id == 3 {
            Some(CosemData::Unsigned(self.security_suite))
        } else if attribute_id == 4 {
            Some(CosemData::OctetString(copy_bytes(self.client_system_title.as_slice())))
        } else if attribute_id == 5 {
            Some(CosemData::OctetString(copy_bytes(self.server_system_title.as_slice())))
        } else {
            None
        }
    }

    fn set_attribute(&mut self, attribute_id: CosemObjectAttributeId, data: CosemData) -> Option<()> {
        match data {
            CosemData::Unsigned(x) => {
                if attribute_id == 2 {
                    self.security_policy = x;
                    Some(())
                } else if attribute_id == 3 {
                    self.security_suite = x;
                    Some(())
                } else {
                    None
                }
            },
            CosemData::OctetString(title) => {
                if attribute_id == 4 {
                    self.client_system_title = title;
                    Some(())
                } else if attribute_id == 5 {
                    self.server_system_title = title;
                    Some(())
                } else {
                    None
                }
            },
            _ => None,
        }
    }

    fn invoke_method(&mut self, method_id: CosemObjectMethodId, data: CosemData) -> Option<
        CosemData,
    > {
        None
    }
}

} // verus!

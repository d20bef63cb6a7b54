use vstd::prelude::*;

verus! {

pub type CosemClassId = u16;

pub type CosemObjectInstanceId = [u8; 6];

pub type CosemObjectAttributeId = i8;

pub type CosemObjectMethodId = i8;

#[derive(Debug, Clone, Copy, PartialEq, Eq)]
pub struct CosemAttributeDescriptor {
    pub class_id: CosemClassId,
    pub instance_id: CosemObjectInstanceId,
    pub attribute_id: CosemObjectAttributeId,
}

#[derive(Debug, Clone, Copy, PartialEq, Eq)]
pub struct CosemMethodDescriptor {
    pub class_id: CosemClassId,
    pub instance_id: CosemObjectInstanceId,
    pub method_id: CosemObjectMethodId,
}

/// A descriptor as values: class, the six octets of the logical name, and the
/// attribute or method id.
pub struct DescriptorModel {
    pub class_id: u16,
    pub instance_id: Seq<u8>,
    pub member_id: i8,
}

impl View for CosemAttributeDescriptor {
    type V = DescriptorModel;

    open spec fn view(&self) -> DescriptorModel {
        DescriptorModel {
            class_id: self.class_id,
            instance_id: self.instance_id@,
            member_id: self.attribute_id,
        }
    }
}

impl View for CosemMethodDescriptor {
    type V = DescriptorModel;

    open spec fn view(&self) -> DescriptorModel {
        DescriptorModel {
            class_id: self.class_id,
            instance_id: self.instance_id@,
            member_id: self.method_id,
        }
    }
}

/// Whether two logical names are the same six octets.
pub fn same_logical_name(a: &[u8; 6], b: &[u8; 6]) -> (r: bool)
    ensures
        r == (a@ == b@),
{
    let mut i: usize = 0;
    while i < 6
        invariant
            i <= 6,
            a@.len() == 6,
            b@.len() == 6,
            forall|j: int| 0 <= j < i ==> a@[j] == b@[j],
        decreases 6 - i,
    {
        if a[i] != b[i] {
            return false;
        }
        i = i + 1;
    }
    assert(a@ =~= b@);
    true
}

} // verus!

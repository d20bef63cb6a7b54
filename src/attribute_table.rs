use vstd::prelude::*;

use crate::cosem_object::{AttributeAccessDescriptor, AttributeAccessMode};
use crate::types::{copy_data, CosemData, DataModel};

verus! {

/// The values of attributes 2, 3, ... of an object that stores each of them
/// as it was last written.
#[derive(Debug)]
pub struct AttributeTable {
    values: Vec<CosemData>,
}

impl AttributeTable {
    /// The value of attribute `id`, if the table holds it.
    pub closed spec fn value_of(&self, id: i8) -> Option<DataModel> {
        if 2 <= id < 2 + self.values@.len() {
            Some(self.values@[id - 2]@)
        } else {
            None
        }
    }

    pub closed spec fn size(&self) -> nat {
        self.values@.len()
    }

    /// `count` attributes, all null.
    pub fn nulls(count: usize) -> (r: Self)
        requires
            count <= 100,
        ensures
            r.size() == count,
            forall|id: i8| 2 <= id < 2 + count ==> r.value_of(id) == Some(DataModel::NullData),
    {
        let mut values: Vec<CosemData> = Vec::new();
        let mut i: usize = 0;
        while i < count
            invariant
                i <= count,
                values@.len() == i,
                forall|j: int| 0 <= j < i ==> (#[trigger] values@[j]) == CosemData::NullData,
            decreases count - i,
        {
            values.push(CosemData::NullData);
            i = i + 1;
        }
        AttributeTable { values }
    }

    pub fn get(&self, id: i8) -> (r: Option<CosemData>)
        ensures
            match self.value_of(id) {
                Some(m) => r matches Some(d) && d@ == m,
                None => r is None,
            },
    {
        if id >= 2 && ((id - 2) as usize) < self.values.len() {
            Some(copy_data(&self.values[(id - 2) as usize]))
        } else {
            None
        }
    }

    /// Stores `data` as attribute `id`; an id outside the table is refused.
    pub fn set(&mut self, id: i8, data: CosemData) -> (r: Option<()>)
        ensures
            final(self).size() == old(self).size(),
            (2 <= id < 2 + old(self).size()) ==> r is Some && final(self).value_of(id) == Some(data@)
                && forall|k: i8| k != id ==> final(self).value_of(k) == old(self).value_of(k),
            !(2 <= id < 2 + old(self).size()) ==> r is None && *final(self) == *old(self),
    {
        if id >= 2 && ((id - 2) as usize) < self.values.len() {
            self.values.set((id - 2) as usize, data);
            Some(())
        } else {
            None
        }
    }
}

/// Access rights for attributes 2, 3, ... in the order of `modes`.
pub fn rights_from_modes(modes: &[AttributeAccessMode]) -> (r: Vec<AttributeAccessDescriptor>)
    requires
        modes@.len() <= 100,
    ensures
        r@.len() == modes@.len(),
        forall|j: int|
            0 <= j < modes@.len() ==> (#[trigger] r@[j]).attribute_id == j + 2 && r@[j].access_mode
                == modes@[j] && r@[j].selective_access_descriptor is None,
{
    let mut rights: Vec<AttributeAccessDescriptor> = Vec::new();
    let mut i: usize = 0;
    while i < modes.len()
        invariant
            i <= modes@.len(),
            modes@.len() <= 100,
            rights@.len() == i,
            forall|j: int|
                0 <= j < i ==> (#[trigger] rights@[j]).attribute_id == j + 2 && rights@[j].access_mode
                    == modes@[j] && rights@[j].selective_access_descriptor is None,
        decreases modes.len() - i,
    {
        rights.push(AttributeAccessDescriptor::new((i + 2) as i8, modes[i]));
        i = i + 1;
    }
    rights
}

} // verus!

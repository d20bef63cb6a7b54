use vstd::prelude::*;

use crate::axdr::{
    append_bytes, be16, be32, data_bytes, decode_data, encode_data, lemma_data_round_trip,
    parse_data, u16_at, u32_at,
};
use crate::cosem::{CosemAttributeDescriptor, CosemMethodDescriptor, DescriptorModel};
use crate::error::DlmsError;
use crate::types::{copy_bytes, CosemData, DataModel};
use crate::wire::{lemma_u16, push_u16, read_u16};
use crate::xdlms::InvokeIdAndPriority;

verus! {

pub const TAG_GET_REQUEST_NORMAL: u8 = 192;
pub const TAG_GET_REQUEST_NEXT: u8 = 193;
pub const TAG_GET_REQUEST_WITH_LIST: u8 = 194;
pub const TAG_SET_REQUEST_NORMAL: u8 = 193;
pub const TAG_ACTION_REQUEST_NORMAL: u8 = 195;
pub const TAG_GET_RESPONSE_NORMAL: u8 = 196;
pub const TAG_GET_RESPONSE_WITH_DATABLOCK: u8 = 197;
pub const TAG_GET_RESPONSE_WITH_LIST: u8 = 198;
pub const TAG_SET_RESPONSE_NORMAL: u8 = 197;
pub const TAG_ACTION_RESPONSE_NORMAL: u8 = 198;

// --- Result codes ---
#[derive(Debug, Clone, Copy, PartialEq, Eq, Structural)]
pub enum DataAccessResult {
    Success,
    HardwareFault,
    TemporaryFailure,
    ReadWriteDenied,
    ObjectUndefined,
    ObjectClassInconsistent,
    ObjectUnavailable,
    TypeUnmatched,
    ScopeOfAccessViolated,
    DataBlockUnavailable,
    LongGetAborted,
    NoLongGetInProgress,
    LongSetAborted,
    NoLongSetInProgress,
    DataBlockNumberInvalid,
    OtherReason(u8),
}

pub open spec fn dar_code(r: DataAccessResult) -> u8 {
    match r {
        DataAccessResult::Success => 0,
        DataAccessResult::HardwareFault => 1,
        DataAccessResult::TemporaryFailure => 2,
        DataAccessResult::ReadWriteDenied => 3,
        DataAccessResult::ObjectUndefined => 4,
        DataAccessResult::ObjectClassInconsistent => 5,
        DataAccessResult::ObjectUnavailable => 6,
        DataAccessResult::TypeUnmatched => 7,
        DataAccessResult::ScopeOfAccessViolated => 8,
        DataAccessResult::DataBlockUnavailable => 9,
        DataAccessResult::LongGetAborted => 10,
        DataAccessResult::NoLongGetInProgress => 11,
        DataAccessResult::LongSetAborted => 12,
        DataAccessResult::NoLongSetInProgress => 13,
        DataAccessResult::DataBlockNumberInvalid => 14,
        DataAccessResult::OtherReason(x) => x,
    }
}

pub open spec fn dar_of_code(c: u8) -> DataAccessResult {
    if c == 0 {
        DataAccessResult::Success
    } else if c == 1 {
        DataAccessResult::HardwareFault
    } else if c == 2 {
        DataAccessResult::TemporaryFailure
    } else if c == 3 {
        DataAccessResult::ReadWriteDenied
    } else if c == 4 {
        DataAccessResult::ObjectUndefined
    } else if c == 5 {
        DataAccessResult::ObjectClassInconsistent
    } else if c == 6 {
        DataAccessResult::ObjectUnavailable
    } else if c == 7 {
        DataAccessResult::TypeUnmatched
    } else if c == 8 {
        DataAccessResult::ScopeOfAccessViolated
    } else if c == 9 {
        DataAccessResult::DataBlockUnavailable
    } else if c == 10 {
        DataAccessResult::LongGetAborted
    } else if c == 11 {
        DataAccessResult::NoLongGetInProgress
    } else if c == 12 {
        DataAccessResult::LongSetAborted
    } else if c == 13 {
        DataAccessResult::NoLongSetInProgress
    } else if c == 14 {
        DataAccessResult::DataBlockNumberInvalid
    } else {
        DataAccessResult::OtherReason(c)
    }
}

/// A code has one spelling: `OtherReason` only for codes without a name.
pub open spec fn dar_canonical(r: DataAccessResult) -> bool {
    match r {
        DataAccessResult::OtherReason(x) => x > 14,
        _ => true,
    }
}

impl DataAccessResult {
    /// The one-byte code on the wire.
    pub fn code(&self) -> (r: u8)
        ensures
            r == dar_code(*self),
    {
        match self {
            DataAccessResult::Success => 0,
            DataAccessResult::HardwareFault => 1,
            DataAccessResult::TemporaryFailure => 2,
            DataAccessResult::ReadWriteDenied => 3,
            DataAccessResult::ObjectUndefined => 4,
            DataAccessResult::ObjectClassInconsistent => 5,
            DataAccessResult::ObjectUnavailable => 6,
            DataAccessResult::TypeUnmatched => 7,
            DataAccessResult::ScopeOfAccessViolated => 8,
            DataAccessResult::DataBlockUnavailable => 9,
            DataAccessResult::LongGetAborted => 10,
            DataAccessResult::NoLongGetInProgress => 11,
            DataAccessResult::LongSetAborted => 12,
            DataAccessResult::NoLongSetInProgress => 13,
            DataAccessResult::DataBlockNumberInvalid => 14,
            DataAccessResult::OtherReason(x) => *x,
        }
    }

    /// The result that a one-byte code names.
    pub fn from_code(c: u8) -> (r: DataAccessResult)
        ensures
            r == dar_of_code(c),
    {
        if c == 0 {
            DataAccessResult::Success
        } else if c == 1 {
            DataAccessResult::HardwareFault
        } else if c == 2 {
            DataAccessResult::TemporaryFailure
        } else if c == 3 {
            DataAccessResult::ReadWriteDenied
        } else if c == 4 {
            DataAccessResult::ObjectUndefined
        } else if c == 5 {
            DataAccessResult::ObjectClassInconsistent
        } else if c == 6 {
            DataAccessResult::ObjectUnavailable
        } else if c == 7 {
            DataAccessResult::TypeUnmatched
        } else if c == 8 {
            DataAccessResult::ScopeOfAccessViolated
        } else if c == 9 {
            DataAccessResult::DataBlockUnavailable
        } else if c == 10 {
            DataAccessResult::LongGetAborted
        } else if c == 11 {
            DataAccessResult::NoLongGetInProgress
        } else if c == 12 {
            DataAccessResult::LongSetAborted
        } else if c == 13 {
            DataAccessResult::NoLongSetInProgress
        } else if c == 14 {
            DataAccessResult::DataBlockNumberInvalid
        } else {
            DataAccessResult::OtherReason(c)
        }
    }
}

#[derive(Debug, Clone, Copy, PartialEq, Eq, Structural)]
pub enum ActionResult {
    Success,
    HardwareFault,
    TemporaryFailure,
    ReadWriteDenied,
    ObjectUndefined,
    ObjectClassInconsistent,
    ObjectUnavailable,
    TypeUnmatched,
    ScopeOfAccessViolated,
    DataBlockUnavailable,
    LongActionAborted,
    NoLongActionInProgress,
    OtherReason(u8),
}

pub open spec fn action_code(r: ActionResult) -> u8 {
    match r {
        ActionResult::Success => 0,
        ActionResult::HardwareFault => 1,
        ActionResult::TemporaryFailure => 2,
        ActionResult::ReadWriteDenied => 3,
        ActionResult::ObjectUndefined => 4,
        ActionResult::ObjectClassInconsistent => 5,
        ActionResult::ObjectUnavailable => 6,
        ActionResult::TypeUnmatched => 7,
        ActionResult::ScopeOfAccessViolated => 8,
        ActionResult::DataBlockUnavailable => 9,
        ActionResult::LongActionAborted => 10,
        ActionResult::NoLongActionInProgress => 11,
        ActionResult::OtherReason(x) => x,
    }
}

pub open spec fn action_of_code(c: u8) -> ActionResult {
    if c == 0 {
        ActionResult::Success
    } else if c == 1 {
        ActionResult::HardwareFault
    } else if c == 2 {
        ActionResult::TemporaryFailure
    } else if c == 3 {
        ActionResult::ReadWriteDenied
    } else if c == 4 {
        ActionResult::ObjectUndefined
    } else if c == 5 {
        ActionResult::ObjectClassInconsistent
    } else if c == 6 {
        ActionResult::ObjectUnavailable
    } else if c == 7 {
        ActionResult::TypeUnmatched
    } else if c == 8 {
        ActionResult::ScopeOfAccessViolated
    } else if c == 9 {
        ActionResult::DataBlockUnavailable
    } else if c == 10 {
        ActionResult::LongActionAborted
    } else if c == 11 {
        ActionResult::NoLongActionInProgress
    } else {
        ActionResult::OtherReason(c)
    }
}

pub open spec fn action_canonical(r: ActionResult) -> bool {
    match r {
        ActionResult::OtherReason(x) => x > 11,
        _ => true,
    }
}

impl ActionResult {
    /// The one-byte code on the wire.
    pub fn code(&self) -> (r: u8)
        ensures
            r == action_code(*self),
    {
        match self {
            ActionResult::Success => 0,
            ActionResult::HardwareFault => 1,
            ActionResult::TemporaryFailure => 2,
            ActionResult::ReadWriteDenied => 3,
            ActionResult::ObjectUndefined => 4,
            ActionResult::ObjectClassInconsistent => 5,
            ActionResult::ObjectUnavailable => 6,
            ActionResult::TypeUnmatched => 7,
            ActionResult::ScopeOfAccessViolated => 8,
            ActionResult::DataBlockUnavailable => 9,
            ActionResult::LongActionAborted => 10,
            ActionResult::NoLongActionInProgress => 11,
            ActionResult::OtherReason(x) => *x,
        }
    }

    /// The result that a one-byte code names.
    pub fn from_code(c: u8) -> (r: ActionResult)
        ensures
            r == action_of_code(c),
    {
        if c == 0 {
            ActionResult::Success
        } else if c == 1 {
            ActionResult::HardwareFault
        } else if c == 2 {
            ActionResult::TemporaryFailure
        } else if c == 3 {
            ActionResult::ReadWriteDenied
        } else if c == 4 {
            ActionResult::ObjectUndefined
        } else if c == 5 {
            ActionResult::ObjectClassInconsistent
        } else if c == 6 {
            ActionResult::ObjectUnavailable
        } else if c == 7 {
            ActionResult::TypeUnmatched
        } else if c == 8 {
            ActionResult::ScopeOfAccessViolated
        } else if c == 9 {
            ActionResult::DataBlockUnavailable
        } else if c == 10 {
            ActionResult::LongActionAborted
        } else if c == 11 {
            ActionResult::NoLongActionInProgress
        } else {
            ActionResult::OtherReason(c)
        }
    }
}

// --- Descriptors on the wire ---
/// Class id (two octets), logical name (six), member id (one).
pub open spec fn descriptor_bytes(d: DescriptorModel) -> Seq<u8> {
    be16(d.class_id) + d.instance_id + seq![d.member_id as u8]
}

pub open spec fn descriptor_at(s: Seq<u8>, i: int) -> DescriptorModel {
    DescriptorModel {
        class_id: u16_at(s, i),
        instance_id: s.subrange(i + 2, i + 8),
        member_id: s[i + 8] as i8,
    }
}

proof fn lemma_descriptor(s: Seq<u8>, i: int, d: DescriptorModel)
    requires
        0 <= i,
        i + 9 <= s.len(),
        d.instance_id.len() == 6,
        s.subrange(i, i + 9) == descriptor_bytes(d),
    ensures
        descriptor_at(s, i) == d,
{
    let b = descriptor_bytes(d);
    assert(s.subrange(i, i + 2) =~= be16(d.class_id));
    lemma_u16(s, i, d.class_id);
    assert(s.subrange(i + 2, i + 8) =~= s.subrange(i, i + 9).subrange(2, 8));
    assert(b.subrange(2, 8) =~= d.instance_id);
    assert(s[i + 8] == b[8]);
    let x = d.member_id;
    assert(((x as u8) as i8) == x) by (bit_vector);
}

fn push_descriptor(buf: &mut Vec<u8>, class_id: u16, instance_id: &[u8; 6], member_id: i8)
    ensures
        final(buf)@ == old(buf)@ + descriptor_bytes(
            DescriptorModel { class_id, instance_id: instance_id@, member_id },
        ),
{
    push_u16(buf, class_id);
    append_bytes(buf, instance_id.as_slice());
    buf.push(member_id as u8);
    assert(final(buf)@ =~= old(buf)@ + descriptor_bytes(
        DescriptorModel { class_id, instance_id: instance_id@, member_id },
    ));
}

fn read_instance_id(s: &[u8], i: usize) -> (r: [u8; 6])
    requires
        i + 6 <= s@.len(),
    ensures
        r@ == s@.subrange(i as int, i + 6),
{
    let r = [s[i], s[i + 1], s[i + 2], s[i + 3], s[i + 4], s[i + 5]];
    assert(r@ =~= s@.subrange(i as int, i + 6));
    r
}

fn read_attribute_descriptor(s: &[u8], i: usize) -> (r: CosemAttributeDescriptor)
    requires
        i + 9 <= s@.len(),
    ensures
        r@ == descriptor_at(s@, i as int),
{
    let _n = s.len();
    CosemAttributeDescriptor {
        class_id: read_u16(s, i),
        instance_id: read_instance_id(s, i + 2),
        attribute_id: #[verifier::truncate] (s[i + 8] as i8),
    }
}

fn read_method_descriptor(s: &[u8], i: usize) -> (r: CosemMethodDescriptor)
    requires
        i + 9 <= s@.len(),
    ensures
        r@ == descriptor_at(s@, i as int),
{
    let _n = s.len();
    CosemMethodDescriptor {
        class_id: read_u16(s, i),
        instance_id: read_instance_id(s, i + 2),
        method_id: #[verifier::truncate] (s[i + 8] as i8),
    }
}

/// Optional selective access: flag 1, the selector and its A-XDR parameters;
/// or flag 0.
pub open spec fn selection_bytes(sel: Option<(u8, DataModel)>) -> Option<Seq<u8>> {
    match sel {
        Some((selector, params)) => match data_bytes(params) {
            Some(b) => Some(seq![1u8, selector] + b),
            None => None,
        },
        None => Some(seq![0u8]),
    }
}

/// The optional selection at `i` and the index after it; a flag other than
/// 1 means none.
pub open spec fn parse_selection(s: Seq<u8>, i: int) -> Option<(Option<(u8, DataModel)>, int)> {
    if i < 0 || i >= s.len() {
        None
    } else if s[i] != 1 {
        Some((None, i + 1))
    } else if i + 1 >= s.len() {
        None
    } else {
        match parse_data(s.subrange(i + 2, s.len() as int)) {
            Some((m, c)) => Some((Some((s[i + 1], m)), i + 2 + c)),
            None => None,
        }
    }
}

#[derive(Debug, Clone, PartialEq)]
pub struct SelectiveAccessDescriptor {
    pub access_selector: u8,
    pub access_parameters: CosemData,
}

pub open spec fn selection_model(sel: Option<SelectiveAccessDescriptor>) -> Option<(u8, DataModel)> {
    match sel {
        Some(a) => Some((a.access_selector, a.access_parameters@)),
        None => None,
    }
}

fn push_selection(buf: &mut Vec<u8>, sel: &Option<SelectiveAccessDescriptor>) -> (r: Result<
    (),
    DlmsError,
>)
    ensures
        match selection_bytes(selection_model(*sel)) {
            Some(b) => r is Ok && final(buf)@ == old(buf)@ + b,
            None => r is Err,
        },
{
    match sel {
        Some(a) => {
            buf.push(1);
            buf.push(a.access_selector);
            let ghost mid = buf@;
            let res = encode_data(&a.access_parameters, buf);
            if res.is_err() {
                return Err(DlmsError::Unsupported);
            }
            assert(final(buf)@ =~= old(buf)@ + (seq![1u8, a.access_selector] + data_bytes(
                a.access_parameters@,
            )->0));
            Ok(())
        },
        None => {
            buf.push(0);
            assert(final(buf)@ =~= old(buf)@ + seq![0u8]);
            Ok(())
        },
    }
}

fn read_selection(s: &[u8], i: usize) -> (r: Result<(Option<SelectiveAccessDescriptor>, usize), DlmsError>)
    ensures
        match parse_selection(s@, i as int) {
            Some((sel, j)) => r matches Ok((v, jj)) && selection_model(v) == sel && jj == j,
            None => (r matches Err(e) && e == DlmsError::Xdlms),
        },
{
    if i >= s.len() {
        return Err(DlmsError::Xdlms);
    }
    if s[i] != 1 {
        return Ok((None, i + 1));
    }
    if i + 1 >= s.len() {
        return Err(DlmsError::Xdlms);
    }
    let selector = s[i + 1];
    let tail = vstd::slice::slice_subrange(s, i + 2, s.len());
    let (params, rest) = decode_data(tail)?;
    let c = tail.len() - rest.len();
    Ok((Some(SelectiveAccessDescriptor { access_selector: selector, access_parameters: params }), i + 2 + c))
}

proof fn lemma_selection(s: Seq<u8>, i: int, sel: Option<(u8, DataModel)>)
    requires
        0 <= i,
        selection_bytes(sel) is Some,
        i + selection_bytes(sel)->0.len() <= s.len(),
        s.subrange(i, i + selection_bytes(sel)->0.len()) == selection_bytes(sel)->0,
    ensures
        parse_selection(s, i) == Some((sel, i + selection_bytes(sel)->0.len())),
{
    let b = selection_bytes(sel)->0;
    assert(s[i] == b[0]);
    match sel {
        Some((selector, params)) => {
            assert(s[i + 1] == b[1]);
            let db = data_bytes(params)->0;
            let rest = s.subrange(i + b.len(), s.len() as int);
            assert(s.subrange(i + 2, s.len() as int) =~= db + rest) by {
                assert(s.subrange(i + 2, i + b.len()) =~= s.subrange(i, i + b.len()).subrange(
                    2,
                    b.len() as int,
                ));
            }
            lemma_data_round_trip(params, rest);
        },
        None => {},
    }
}

// --- Get-Request ---
#[derive(Debug, Clone, PartialEq)]
pub struct GetRequestNormal {
    pub invoke_id_and_priority: InvokeIdAndPriority,
    pub cosem_attribute_descriptor: CosemAttributeDescriptor,
    pub access_selection: Option<SelectiveAccessDescriptor>,
}

#[derive(Debug, Clone, PartialEq)]
pub struct GetRequestNext {
    pub invoke_id_and_priority: InvokeIdAndPriority,
    pub block_number: u32,
}

#[derive(Debug, Clone, PartialEq)]
pub struct GetRequestWithList {
    pub invoke_id_and_priority: InvokeIdAndPriority,
    pub attribute_descriptor_list: Vec<CosemAttributeDescriptor>,
}

#[derive(Debug, Clone, PartialEq)]
pub enum GetRequest {
    Normal(GetRequestNormal),
    Next(GetRequestNext),
    WithList(GetRequestWithList),
}

pub enum GetRequestModel {
    Normal { invoke: u8, descriptor: DescriptorModel, selection: Option<(u8, DataModel)> },
    Next { invoke: u8, block_number: u32 },
    WithList { invoke: u8, descriptors: Seq<DescriptorModel> },
}

impl View for GetRequest {
    type V = GetRequestModel;

    open spec fn view(&self) -> GetRequestModel {
        match self {
            GetRequest::Normal(r) => GetRequestModel::Normal {
                invoke: r.invoke_id_and_priority,
                descriptor: r.cosem_attribute_descriptor@,
                selection: selection_model(r.access_selection),
            },
            GetRequest::Next(r) => GetRequestModel::Next {
                invoke: r.invoke_id_and_priority,
                block_number: r.block_number,
            },
            GetRequest::WithList(r) => GetRequestModel::WithList {
                invoke: r.invoke_id_and_priority,
                descriptors: r.attribute_descriptor_list@.map_values(
                    |d: CosemAttributeDescriptor| d@,
                ),
            },
        }
    }
}

pub open spec fn descriptors_bytes(ds: Seq<DescriptorModel>) -> Seq<u8>
    decreases ds.len(),
{
    if ds.len() == 0 {
        Seq::empty()
    } else {
        descriptors_bytes(ds.drop_last()) + descriptor_bytes(ds.last())
    }
}

/// The Get-Request APDU, or `None` for a selection that cannot be written or
/// a list longer than a one-octet count.
pub open spec fn get_request_bytes(m: GetRequestModel) -> Option<Seq<u8>> {
    match m {
        GetRequestModel::Normal { invoke, descriptor, selection } => match selection_bytes(
            selection,
        ) {
            Some(sb) => Some(
                seq![TAG_GET_REQUEST_NORMAL, invoke] + descriptor_bytes(descriptor) + sb,
            ),
            None => None,
        },
        GetRequestModel::Next { invoke, block_number } => Some(
            seq![TAG_GET_REQUEST_NEXT, invoke] + be32(block_number),
        ),
        GetRequestModel::WithList { invoke, descriptors } => if descriptors.len() <= 0xFF {
            Some(
                seq![TAG_GET_REQUEST_WITH_LIST, invoke, descriptors.len() as u8]
                    + descriptors_bytes(descriptors),
            )
        } else {
            None
        },
    }
}

/// What a Get-Request APDU says. Normal and with-list are read; what follows
/// a normal request is not looked at.
pub open spec fn parse_get_request(s: Seq<u8>) -> Option<GetRequestModel> {
    if s.len() < 2 {
        None
    } else if s[0] == TAG_GET_REQUEST_NORMAL {
        if s.len() < 11 {
            None
        } else {
            match parse_selection(s, 11) {
                Some((sel, _)) => Some(
                    GetRequestModel::Normal {
                        invoke: s[1],
                        descriptor: descriptor_at(s, 2),
                        selection: sel,
                    },
                ),
                None => None,
            }
        }
    } else if s[0] == TAG_GET_REQUEST_WITH_LIST {
        if s.len() < 3 || s.len() < 3 + 9 * (s[2] as int) {
            None
        } else {
            Some(
                GetRequestModel::WithList {
                    invoke: s[1],
                    descriptors: Seq::new(s[2] as nat, |j: int| descriptor_at(s, 3 + 9 * j)),
                },
            )
        }
    } else {
        None
    }
}

proof fn lemma_descriptors_bytes_len(ds: Seq<DescriptorModel>)
    requires
        forall|j: int| 0 <= j < ds.len() ==> (#[trigger] ds[j]).instance_id.len() == 6,
    ensures
        descriptors_bytes(ds).len() == 9 * ds.len(),
    decreases ds.len(),
{
    if ds.len() > 0 {
        lemma_descriptors_bytes_len(ds.drop_last());
    }
}

proof fn lemma_descriptors_at(ds: Seq<DescriptorModel>, j: int)
    requires
        forall|k: int| 0 <= k < ds.len() ==> (#[trigger] ds[k]).instance_id.len() == 6,
        0 <= j < ds.len(),
    ensures
        descriptors_bytes(ds).len() == 9 * ds.len(),
        descriptor_at(descriptors_bytes(ds), 9 * j) == ds[j],
    decreases ds.len(),
{
    lemma_descriptors_bytes_len(ds);
    let s = descriptors_bytes(ds);
    let init = ds.drop_last();
    lemma_descriptors_bytes_len(init);
    if j < ds.len() - 1 {
        lemma_descriptors_at(init, j);
        let p = descriptors_bytes(init);
        assert(s[9 * j] == p[9 * j]);
        assert(s[9 * j + 1] == p[9 * j + 1]);
        assert(s[9 * j + 8] == p[9 * j + 8]);
        assert(s.subrange(9 * j + 2, 9 * j + 8) =~= p.subrange(9 * j + 2, 9 * j + 8));
    } else {
        assert(s.subrange(9 * j, 9 * j + 9) =~= descriptor_bytes(ds[j]));
        lemma_descriptor(s, 9 * j, ds[j]);
    }
}

impl GetRequest {
    pub fn to_bytes(&self) -> (r: Result<Vec<u8>, DlmsError>)
        ensures
            match get_request_bytes(self@) {
                Some(b) => r matches Ok(v) && v@ == b,
                None => r is Err,
            },
    {
        let mut bytes: Vec<u8> = Vec::new();
        match self {
            GetRequest::Normal(req) => {
                bytes.push(TAG_GET_REQUEST_NORMAL);
                bytes.push(req.invoke_id_and_priority);
                let d = &req.cosem_attribute_descriptor;
                push_descriptor(&mut bytes, d.class_id, &d.instance_id, d.attribute_id);
                push_selection(&mut bytes, &req.access_selection)?;
                assert(bytes@ =~= get_request_bytes(self@)->0);
            },
            GetRequest::Next(req) => {
                bytes.push(TAG_GET_REQUEST_NEXT);
                bytes.push(req.invoke_id_and_priority);
                let b = req.block_number;
                bytes.push((b / 0x100_0000) as u8);
                bytes.push(((b / 0x1_0000) % 0x100) as u8);
                bytes.push(((b / 0x100) % 0x100) as u8);
                bytes.push((b % 0x100) as u8);
                assert(bytes@ =~= get_request_bytes(self@)->0);
            },
            GetRequest::WithList(req) => {
                let list = &req.attribute_descriptor_list;
                if list.len() > 0xFF {
                    return Err(DlmsError::Xdlms);
                }
                bytes.push(TAG_GET_REQUEST_WITH_LIST);
                bytes.push(req.invoke_id_and_priority);
                bytes.push(list.len() as u8);
                let ghost head = bytes@;
                let ghost ds = list@.map_values(|d: CosemAttributeDescriptor| d@);
                let mut i: usize = 0;
                while i < list.len()
                    invariant
                        i <= list.len(),
                        ds == list@.map_values(|d: CosemAttributeDescriptor| d@),
                        bytes@ == head + descriptors_bytes(ds.subrange(0, i as int)),
                    decreases list.len() - i,
                {
                    let d = &list[i];
                    push_descriptor(&mut bytes, d.class_id, &d.instance_id, d.attribute_id);
                    proof {
                        assert(ds.subrange(0, i + 1).drop_last() =~= ds.subrange(0, i as int));
                        assert(ds.subrange(0, i + 1).last() == ds[i as int]);
                    }
                    i = i + 1;
                }
                assert(ds.subrange(0, ds.len() as int) =~= ds);
            },
        }
        Ok(bytes)
    }

    /// Reads a normal or with-list Get-Request.
    pub fn from_bytes(bytes: &[u8]) -> (r: Result<Self, DlmsError>)
        ensures
            match parse_get_request(bytes@) {
                Some(m) => r matches Ok(v) && v@ == m,
                None => (r matches Err(e) && e == DlmsError::Xdlms),
            },
    {
        if bytes.len() < 2 {
            return Err(DlmsError::Xdlms);
        }
        let invoke = bytes[1];
        if bytes[0] == TAG_GET_REQUEST_NORMAL {
            if bytes.len() < 11 {
                return Err(DlmsError::Xdlms);
            }
            let descriptor = read_attribute_descriptor(bytes, 2);
            let (access_selection, _) = read_selection(bytes, 11)?;
            Ok(
                GetRequest::Normal(
                    GetRequestNormal {
                        invoke_id_and_priority: invoke,
                        cosem_attribute_descriptor: descriptor,
                        access_selection,
                    },
                ),
            )
        } else if bytes[0] == TAG_GET_REQUEST_WITH_LIST {
            if bytes.len() < 3 {
                return Err(DlmsError::Xdlms);
            }
            let n = bytes[2] as usize;
            if bytes.len() < 3 + 9 * n {
                return Err(DlmsError::Xdlms);
            }
            let mut list: Vec<CosemAttributeDescriptor> = Vec::new();
            let mut i: usize = 0;
            while i < n
                invariant
                    i <= n,
                    n == bytes@[2] as nat,
                    bytes@.len() >= 3 + 9 * n,
                    list@.len() == i,
                    forall|j: int|
                        0 <= j < i ==> (#[trigger] list@[j])@ == descriptor_at(bytes@, 3 + 9 * j),
                decreases n - i,
            {
                let d = read_attribute_descriptor(bytes, 3 + 9 * i);
                list.push(d);
                i = i + 1;
            }
            let r = GetRequest::WithList(
                GetRequestWithList { invoke_id_and_priority: invoke, attribute_descriptor_list: list },
            );
            assert(r@->descriptors =~= Seq::new(n as nat, |j: int| descriptor_at(bytes@, 3 + 9 * j)));
            Ok(r)
        } else {
            Err(DlmsError::Xdlms)
        }
    }
}

// --- Get-Response ---
#[derive(Debug, Clone, PartialEq)]
pub enum GetDataResult {
    Data(CosemData),
    DataAccessResult(DataAccessResult),
}

pub enum GetDataResultModel {
    Data(DataModel),
    AccessResult(DataAccessResult),
}

impl View for GetDataResult {
    type V = GetDataResultModel;

    open spec fn view(&self) -> GetDataResultModel {
        match self {
            GetDataResult::Data(d) => GetDataResultModel::Data(d@),
            GetDataResult::DataAccessResult(r) => GetDataResultModel::AccessResult(*r),
        }
    }
}

/// Choice 0 and an A-XDR value, or choice 1 and a result code.
pub open spec fn get_result_bytes(r: GetDataResultModel) -> Option<Seq<u8>> {
    match r {
        GetDataResultModel::Data(d) => match data_bytes(d) {
            Some(b) => Some(seq![0u8] + b),
            None => None,
        },
        GetDataResultModel::AccessResult(a) => Some(seq![1u8, dar_code(a)]),
    }
}

pub open spec fn parse_get_result(s: Seq<u8>, i: int) -> Option<(GetDataResultModel, int)> {
    if i < 0 || i >= s.len() {
        None
    } else if s[i] == 0 {
        match parse_data(s.subrange(i + 1, s.len() as int)) {
            Some((m, c)) => Some((GetDataResultModel::Data(m), i + 1 + c)),
            None => None,
        }
    } else if i + 1 >= s.len() {
        None
    } else {
        Some((GetDataResultModel::AccessResult(dar_of_code(s[i + 1])), i + 2))
    }
}

pub open spec fn get_result_canonical(r: GetDataResultModel) -> bool {
    match r {
        GetDataResultModel::Data(_) => true,
        GetDataResultModel::AccessResult(a) => dar_canonical(a),
    }
}

proof fn lemma_get_result(s: Seq<u8>, i: int, r: GetDataResultModel)
    requires
        0 <= i,
        get_result_canonical(r),
        get_result_bytes(r) is Some,
        i + get_result_bytes(r)->0.len() <= s.len(),
        s.subrange(i, i + get_result_bytes(r)->0.len()) == get_result_bytes(r)->0,
    ensures
        parse_get_result(s, i) == Some((r, i + get_result_bytes(r)->0.len())),
{
    let b = get_result_bytes(r)->0;
    assert(s[i] == b[0]);
    match r {
        GetDataResultModel::Data(d) => {
            let db = data_bytes(d)->0;
            let rest = s.subrange(i + b.len(), s.len() as int);
            assert(s.subrange(i + 1, s.len() as int) =~= db + rest) by {
                assert(s.subrange(i + 1, i + b.len()) =~= s.subrange(i, i + b.len()).subrange(
                    1,
                    b.len() as int,
                ));
            }
            lemma_data_round_trip(d, rest);
        },
        GetDataResultModel::AccessResult(a) => {
            assert(s[i + 1] == b[1]);
        },
    }
}

fn push_get_result(buf: &mut Vec<u8>, r: &GetDataResult) -> (res: Result<(), DlmsError>)
    ensures
        match get_result_bytes(r@) {
            Some(b) => res is Ok && final(buf)@ == old(buf)@ + b,
            None => res is Err,
        },
{
    match r {
        GetDataResult::Data(d) => {
            buf.push(0);
            let res = encode_data(d, buf);
            if res.is_err() {
                return Err(DlmsError::Unsupported);
            }
            assert(final(buf)@ =~= old(buf)@ + (seq![0u8] + data_bytes(d@)->0));
        },
        GetDataResult::DataAccessResult(a) => {
            buf.push(1);
            buf.push(a.code());
            assert(final(buf)@ =~= old(buf)@ + seq![1u8, dar_code(*a)]);
        },
    }
    Ok(())
}

fn read_get_result(s: &[u8], i: usize) -> (r: Result<(GetDataResult, usize), DlmsError>)
    ensures
        match parse_get_result(s@, i as int) {
            Some((m, j)) => r matches Ok((v, jj)) && v@ == m && jj == j,
            None => (r matches Err(e) && e == DlmsError::Xdlms),
        },
{
    if i >= s.len() {
        return Err(DlmsError::Xdlms);
    }
    if s[i] == 0 {
        let tail = vstd::slice::slice_subrange(s, i + 1, s.len());
        let (d, rest) = decode_data(tail)?;
        let c = tail.len() - rest.len();
        Ok((GetDataResult::Data(d), i + 1 + c))
    } else if i + 1 >= s.len() {
        Err(DlmsError::Xdlms)
    } else {
        Ok((GetDataResult::DataAccessResult(DataAccessResult::from_code(s[i + 1])), i + 2))
    }
}

#[derive(Debug, Clone, PartialEq)]
pub struct GetResponseNormal {
    pub invoke_id_and_priority: InvokeIdAndPriority,
    pub result: GetDataResult,
}

#[derive(Debug, Clone, PartialEq)]
pub struct DataBlockG {
    pub last_block: bool,
    pub block_number: u32,
    pub raw_data: Vec<u8>,
}

#[derive(Debug, Clone, PartialEq)]
pub struct GetResponseWithDatablock {
    pub invoke_id_and_priority: InvokeIdAndPriority,
    pub result: DataBlockG,
}

#[derive(Debug, Clone, PartialEq)]
pub struct GetResponseWithList {
    pub invoke_id_and_priority: InvokeIdAndPriority,
    pub result: Vec<GetDataResult>,
}

#[derive(Debug, Clone, PartialEq)]
pub enum GetResponse {
    Normal(GetResponseNormal),
    WithDataBlock(GetResponseWithDatablock),
    WithList(GetResponseWithList),
}

pub enum GetResponseModel {
    Normal { invoke: u8, result: GetDataResultModel },
    WithDataBlock { invoke: u8, last_block: bool, block_number: u32, raw_data: Seq<u8> },
    WithList { invoke: u8, results: Seq<GetDataResultModel> },
}

impl View for GetResponse {
    type V = GetResponseModel;

    open spec fn view(&self) -> GetResponseModel {
        match self {
            GetResponse::Normal(r) => GetResponseModel::Normal {
                invoke: r.invoke_id_and_priority,
                result: r.result@,
            },
            GetResponse::WithDataBlock(r) => GetResponseModel::WithDataBlock {
                invoke: r.invoke_id_and_priority,
                last_block: r.result.last_block,
                block_number: r.result.block_number,
                raw_data: r.result.raw_data@,
            },
            GetResponse::WithList(r) => GetResponseModel::WithList {
                invoke: r.invoke_id_and_priority,
                results: r.result@.map_values(|x: GetDataResult| x@),
            },
        }
    }
}

pub open spec fn get_results_bytes(rs: Seq<GetDataResultModel>) -> Option<Seq<u8>>
    decreases rs.len(),
{
    if rs.len() == 0 {
        Some(Seq::empty())
    } else {
        match (get_results_bytes(rs.drop_last()), get_result_bytes(rs.last())) {
            (Some(a), Some(b)) => Some(a + b),
            _ => None,
        }
    }
}

pub open spec fn parse_get_results(s: Seq<u8>, i: int, n: nat) -> Option<Seq<GetDataResultModel>>
    decreases n,
{
    if n == 0 {
        Some(Seq::empty())
    } else {
        match parse_get_result(s, i) {
            Some((r, j)) => match parse_get_results(s, j, (n - 1) as nat) {
                Some(rs) => Some(seq![r] + rs),
                None => None,
            },
            None => None,
        }
    }
}

/// The Get-Response APDU, or `None` for a value that cannot be written or a
/// list longer than a one-octet count.
pub open spec fn get_response_bytes(m: GetResponseModel) -> Option<Seq<u8>> {
    match m {
        GetResponseModel::Normal { invoke, result } => match get_result_bytes(result) {
            Some(b) => Some(seq![TAG_GET_RESPONSE_NORMAL, invoke] + b),
            None => None,
        },
        GetResponseModel::WithDataBlock { invoke, last_block, block_number, raw_data } => Some(
            seq![TAG_GET_RESPONSE_WITH_DATABLOCK, invoke, if last_block { 1u8 } else { 0u8 }]
                + be32(block_number) + raw_data,
        ),
        GetResponseModel::WithList { invoke, results } => if results.len() <= 0xFF {
            match get_results_bytes(results) {
                Some(b) => Some(
                    seq![TAG_GET_RESPONSE_WITH_LIST, invoke, results.len() as u8] + b,
                ),
                None => None,
            }
        } else {
            None
        },
    }
}

/// What a Get-Response APDU says; what follows a normal response is not
/// looked at, and a data block takes the rest of the input.
pub open spec fn parse_get_response(s: Seq<u8>) -> Option<GetResponseModel> {
    if s.len() < 2 {
        None
    } else if s[0] == TAG_GET_RESPONSE_NORMAL {
        match parse_get_result(s, 2) {
            Some((r, _)) => Some(GetResponseModel::Normal { invoke: s[1], result: r }),
            None => None,
        }
    } else if s[0] == TAG_GET_RESPONSE_WITH_LIST {
        if s.len() < 3 {
            None
        } else {
            match parse_get_results(s, 3, s[2] as nat) {
                Some(rs) => Some(GetResponseModel::WithList { invoke: s[1], results: rs }),
                None => None,
            }
        }
    } else if s[0] == TAG_GET_RESPONSE_WITH_DATABLOCK {
        if s.len() < 7 {
            None
        } else {
            Some(
                GetResponseModel::WithDataBlock {
                    invoke: s[1],
                    last_block: s[2] != 0,
                    block_number: u32_at(s, 3),
                    raw_data: s.subrange(7, s.len() as int),
                },
            )
        }
    } else {
        None
    }
}

impl GetResponse {
    pub fn to_bytes(&self) -> (r: Result<Vec<u8>, DlmsError>)
        ensures
            match get_response_bytes(self@) {
                Some(b) => r matches Ok(v) && v@ == b,
                None => r is Err,
            },
    {
        let mut bytes: Vec<u8> = Vec::new();
        match self {
            GetResponse::Normal(res) => {
                bytes.push(TAG_GET_RESPONSE_NORMAL);
                bytes.push(res.invoke_id_and_priority);
                push_get_result(&mut bytes, &res.result)?;
                assert(bytes@ =~= get_response_bytes(self@)->0);
            },
            GetResponse::WithList(res) => {
                let list = &res.result;
                if list.len() > 0xFF {
                    return Err(DlmsError::Xdlms);
                }
                bytes.push(TAG_GET_RESPONSE_WITH_LIST);
                bytes.push(res.invoke_id_and_priority);
                bytes.push(list.len() as u8);
                let ghost head = bytes@;
                let ghost rs = list@.map_values(|x: GetDataResult| x@);
                let mut i: usize = 0;
                while i < list.len()
                    invariant
                        i <= list.len(),
                        rs == list@.map_values(|x: GetDataResult| x@),
                        rs.len() == list@.len(),
                        list@.len() <= 0xFF,
                        self@ == (GetResponseModel::WithList {
                            invoke: res.invoke_id_and_priority,
                            results: rs,
                        }),
                        get_results_bytes(rs.subrange(0, i as int)) == Some(
                            bytes@.subrange(head.len() as int, bytes@.len() as int),
                        ),
                        bytes@.len() >= head.len(),
                        bytes@.subrange(0, head.len() as int) == head,
                    decreases list.len() - i,
                {
                    let ghost before = bytes@;
                    let pushed = push_get_result(&mut bytes, &list[i]);
                    if pushed.is_err() {
                        proof {
                            assert(rs[i as int] == list@[i as int]@);
                            lemma_get_results_none(rs, i as int);
                            assert(self@ == (GetResponseModel::WithList {
                                invoke: res.invoke_id_and_priority,
                                results: rs,
                            }));
                            assert(get_response_bytes(self@) is None);
                        }
                        return Err(DlmsError::Unsupported);
                    }
                    proof {
                        assert(rs.subrange(0, i + 1).drop_last() =~= rs.subrange(0, i as int));
                        assert(rs.subrange(0, i + 1).last() == rs[i as int]);
                        assert(bytes@.subrange(head.len() as int, bytes@.len() as int)
                            =~= before.subrange(head.len() as int, before.len() as int)
                            + get_result_bytes(rs[i as int])->0);
                        assert(bytes@.subrange(0, head.len() as int) =~= before.subrange(
                            0,
                            head.len() as int,
                        ));
                    }
                    i = i + 1;
                }
                proof {
                    assert(rs.subrange(0, rs.len() as int) =~= rs);
                    assert(bytes@ =~= head + bytes@.subrange(head.len() as int, bytes@.len() as int));
                }
            },
            GetResponse::WithDataBlock(res) => {
                bytes.push(TAG_GET_RESPONSE_WITH_DATABLOCK);
                bytes.push(res.invoke_id_and_priority);
                bytes.push(if res.result.last_block { 1u8 } else { 0u8 });
                let b = res.result.block_number;
                bytes.push((b / 0x100_0000) as u8);
                bytes.push(((b / 0x1_0000) % 0x100) as u8);
                bytes.push(((b / 0x100) % 0x100) as u8);
                bytes.push((b % 0x100) as u8);
                append_bytes(&mut bytes, res.result.raw_data.as_slice());
                assert(bytes@ =~= get_response_bytes(self@)->0);
            },
        }
        Ok(bytes)
    }

    /// Reads a normal, with-list or data-block Get-Response.
    pub fn from_bytes(bytes: &[u8]) -> (r: Result<Self, DlmsError>)
        ensures
            match parse_get_response(bytes@) {
                Some(m) => r matches Ok(v) && v@ == m,
                None => (r matches Err(e) && e == DlmsError::Xdlms),
            },
    {
        if bytes.len() < 2 {
            return Err(DlmsError::Xdlms);
        }
        let invoke = bytes[1];
        if bytes[0] == TAG_GET_RESPONSE_NORMAL {
            let (result, _) = read_get_result(bytes, 2)?;
            Ok(GetResponse::Normal(GetResponseNormal { invoke_id_and_priority: invoke, result }))
        } else if bytes[0] == TAG_GET_RESPONSE_WITH_LIST {
            if bytes.len() < 3 {
                return Err(DlmsError::Xdlms);
            }
            let n = bytes[2] as usize;
            let mut list: Vec<GetDataResult> = Vec::new();
            let mut pos: usize = 3;
            let mut i: usize = 0;
            proof {
                match parse_get_results(bytes@, 3, n as nat) {
                    Some(rs) => {
                        assert(Seq::<GetDataResultModel>::empty() + rs =~= rs);
                    },
                    None => {},
                }
                assert(list@.map_values(|x: GetDataResult| x@) =~= Seq::<GetDataResultModel>::empty());
            }
            while i < n
                invariant
                    i <= n,
                    bytes@.len() >= 3,
                    bytes@[0] == TAG_GET_RESPONSE_WITH_LIST,
                    n == bytes@[2] as usize,
                    parse_get_results(bytes@, 3, n as nat) == match parse_get_results(
                        bytes@,
                        pos as int,
                        (n - i) as nat,
                    ) {
                        Some(rs) => Some(list@.map_values(|x: GetDataResult| x@) + rs),
                        None => None::<Seq<GetDataResultModel>>,
                    },
                decreases n - i,
            {
                let (item, next) = match read_get_result(bytes, pos) {
                    Ok(p) => p,
                    Err(e) => {
                        assert(parse_get_results(bytes@, pos as int, (n - i) as nat) is None);
                        assert(parse_get_results(bytes@, 3, n as nat) is None);
                        assert(bytes@[0] == TAG_GET_RESPONSE_WITH_LIST);
                        assert(n as nat == bytes@[2] as nat);
                        assert(parse_get_response(bytes@) is None);
                        return Err(e);
                    },
                };
                proof {
                    let ghost prev = list@.map_values(|x: GetDataResult| x@);
                    match parse_get_results(bytes@, next as int, (n - i - 1) as nat) {
                        Some(rs) => {
                            assert(prev + (seq![item@] + rs) =~= prev.push(item@) + rs);
                        },
                        None => {},
                    }
                }
                list.push(item);
                proof {
                    assert(list@.map_values(|x: GetDataResult| x@) =~= old_map_push(list@));
                }
                pos = next;
                i = i + 1;
            }
            proof {
                assert(list@.map_values(|x: GetDataResult| x@) + Seq::<GetDataResultModel>::empty()
                    =~= list@.map_values(|x: GetDataResult| x@));
            }
            Ok(GetResponse::WithList(GetResponseWithList { invoke_id_and_priority: invoke, result: list }))
        } else if bytes[0] == TAG_GET_RESPONSE_WITH_DATABLOCK {
            if bytes.len() < 7 {
                return Err(DlmsError::Xdlms);
            }
            let last_block = bytes[2] != 0;
            let block_number = (bytes[3] as u32) * 0x100_0000 + (bytes[4] as u32) * 0x1_0000
                + (bytes[5] as u32) * 0x100 + bytes[6] as u32;
            let raw_data = copy_bytes(vstd::slice::slice_subrange(bytes, 7, bytes.len()));
            Ok(
                GetResponse::WithDataBlock(
                    GetResponseWithDatablock {
                        invoke_id_and_priority: invoke,
                        result: DataBlockG { last_block, block_number, raw_data },
                    },
                ),
            )
        } else {
            Err(DlmsError::Xdlms)
        }
    }
}

proof fn lemma_get_results_none(rs: Seq<GetDataResultModel>, i: int)
    requires
        0 <= i < rs.len(),
        get_result_bytes(rs[i]) is None,
    ensures
        get_results_bytes(rs) is None,
    decreases rs.len(),
{
    if i < rs.len() - 1 {
        lemma_get_results_none(rs.drop_last(), i);
    }
}

pub open spec fn old_map_push(v: Seq<GetDataResult>) -> Seq<GetDataResultModel> {
    v.drop_last().map_values(|x: GetDataResult| x@).push(v.last()@)
}

// --- Set-Request ---
#[derive(Debug, Clone, PartialEq)]
pub struct SetRequestNormal {
    pub invoke_id_and_priority: InvokeIdAndPriority,
    pub cosem_attribute_descriptor: CosemAttributeDescriptor,
    pub access_selection: Option<SelectiveAccessDescriptor>,
    pub value: CosemData,
}

#[derive(Debug, Clone, PartialEq)]
pub struct SetRequestWithList {
    pub invoke_id_and_priority: InvokeIdAndPriority,
    pub attribute_descriptor_list: Vec<CosemAttributeDescriptor>,
    pub value_list: Vec<CosemData>,
}

#[derive(Debug, Clone, PartialEq)]
pub enum SetRequest {
    Normal(SetRequestNormal),
    WithList(SetRequestWithList),
}

/// A normal Set-Request as values; the with-list form is not carried.
pub struct SetRequestModel {
    pub invoke: u8,
    pub descriptor: DescriptorModel,
    pub selection: Option<(u8, DataModel)>,
    pub value: DataModel,
}

/// The normal Set-Request APDU, or `None` for values that cannot be written.
pub open spec fn set_request_bytes(m: SetRequestModel) -> Option<Seq<u8>> {
    match (selection_bytes(m.selection), data_bytes(m.value)) {
        (Some(sb), Some(vb)) => Some(
            seq![TAG_SET_REQUEST_NORMAL, m.invoke] + descriptor_bytes(m.descriptor) + sb + vb,
        ),
        _ => None,
    }
}

/// What a normal Set-Request says; what follows the value is not looked at.
pub open spec fn parse_set_request(s: Seq<u8>) -> Option<SetRequestModel> {
    if s.len() < 11 || s[0] != TAG_SET_REQUEST_NORMAL {
        None
    } else {
        match parse_selection(s, 11) {
            Some((sel, j)) => match parse_data(s.subrange(j, s.len() as int)) {
                Some((v, _)) => Some(
                    SetRequestModel {
                        invoke: s[1],
                        descriptor: descriptor_at(s, 2),
                        selection: sel,
                        value: v,
                    },
                ),
                None => None,
            },
            None => None,
        }
    }
}

pub open spec fn set_request_model(r: SetRequestNormal) -> SetRequestModel {
    SetRequestModel {
        invoke: r.invoke_id_and_priority,
        descriptor: r.cosem_attribute_descriptor@,
        selection: selection_model(r.access_selection),
        value: r.value@,
    }
}

impl SetRequest {
    /// The normal Set-Request APDU; the with-list form is not written.
    pub fn to_bytes(&self) -> (r: Result<Vec<u8>, DlmsError>)
        ensures
            match self {
                SetRequest::Normal(req) => match set_request_bytes(set_request_model(*req)) {
                    Some(b) => r matches Ok(v) && v@ == b,
                    None => r is Err,
                },
                SetRequest::WithList(_) => r == Err::<Vec<u8>, DlmsError>(DlmsError::Xdlms),
            },
    {
        match self {
            SetRequest::Normal(req) => {
                let mut bytes: Vec<u8> = Vec::new();
                bytes.push(TAG_SET_REQUEST_NORMAL);
                bytes.push(req.invoke_id_and_priority);
                let d = &req.cosem_attribute_descriptor;
                push_descriptor(&mut bytes, d.class_id, &d.instance_id, d.attribute_id);
                push_selection(&mut bytes, &req.access_selection)?;
                let ghost mid = bytes@;
                let res = encode_data(&req.value, &mut bytes);
                if res.is_err() {
                    return Err(DlmsError::Unsupported);
                }
                assert(bytes@ =~= set_request_bytes(set_request_model(*req))->0);
                Ok(bytes)
            },
            SetRequest::WithList(_) => Err(DlmsError::Xdlms),
        }
    }

    /// Reads a normal Set-Request.
    pub fn from_bytes(bytes: &[u8]) -> (r: Result<Self, DlmsError>)
        ensures
            match parse_set_request(bytes@) {
                Some(m) => r matches Ok(SetRequest::Normal(v)) && set_request_model(v) == m,
                None => (r matches Err(e) && e == DlmsError::Xdlms),
            },
    {
        if bytes.len() < 11 || bytes[0] != TAG_SET_REQUEST_NORMAL {
            return Err(DlmsError::Xdlms);
        }
        let invoke = bytes[1];
        let descriptor = read_attribute_descriptor(bytes, 2);
        let (access_selection, j) = read_selection(bytes, 11)?;
        let tail = vstd::slice::slice_subrange(bytes, j, bytes.len());
        let (value, _) = decode_data(tail)?;
        Ok(
            SetRequest::Normal(
                SetRequestNormal {
                    invoke_id_and_priority: invoke,
                    cosem_attribute_descriptor: descriptor,
                    access_selection,
                    value,
                },
            ),
        )
    }
}

// --- Set-Response ---
#[derive(Debug, Clone, Copy, PartialEq, Eq, Structural)]
pub struct SetResponseNormal {
    pub invoke_id_and_priority: InvokeIdAndPriority,
    pub result: DataAccessResult,
}

#[derive(Debug, Clone, PartialEq)]
pub struct SetResponseWithList {
    pub invoke_id_and_priority: InvokeIdAndPriority,
    pub result: Vec<DataAccessResult>,
}

#[derive(Debug, Clone, PartialEq)]
pub enum SetResponse {
    Normal(SetResponseNormal),
    WithList(SetResponseWithList),
}

pub open spec fn set_response_bytes(m: SetResponseNormal) -> Seq<u8> {
    seq![TAG_SET_RESPONSE_NORMAL, m.invoke_id_and_priority, dar_code(m.result)]
}

/// What a normal Set-Response says; what follows the code is not looked at.
pub open spec fn parse_set_response(s: Seq<u8>) -> Option<SetResponseNormal> {
    if s.len() < 3 || s[0] != TAG_SET_RESPONSE_NORMAL {
        None
    } else {
        Some(SetResponseNormal { invoke_id_and_priority: s[1], result: dar_of_code(s[2]) })
    }
}

impl SetResponse {
    /// The normal Set-Response APDU; the with-list form is not written.
    pub fn to_bytes(&self) -> (r: Result<Vec<u8>, DlmsError>)
        ensures
            match self {
                SetResponse::Normal(res) => r matches Ok(v) && v@ == set_response_bytes(*res),
                SetResponse::WithList(_) => r == Err::<Vec<u8>, DlmsError>(DlmsError::Xdlms),
            },
    {
        match self {
            SetResponse::Normal(res) => {
                let mut bytes: Vec<u8> = Vec::new();
                bytes.push(TAG_SET_RESPONSE_NORMAL);
                bytes.push(res.invoke_id_and_priority);
                bytes.push(res.result.code());
                assert(bytes@ =~= set_response_bytes(*res));
                Ok(bytes)
            },
            SetResponse::WithList(_) => Err(DlmsError::Xdlms),
        }
    }

    /// Reads a normal Set-Response.
    pub fn from_bytes(bytes: &[u8]) -> (r: Result<Self, DlmsError>)
        ensures
            match parse_set_response(bytes@) {
                Some(m) => r matches Ok(SetResponse::Normal(v)) && v == m,
                None => r == Err::<SetResponse, DlmsError>(DlmsError::Xdlms),
            },
    {
        if bytes.len() < 3 || bytes[0] != TAG_SET_RESPONSE_NORMAL {
            return Err(DlmsError::Xdlms);
        }
        Ok(
            SetResponse::Normal(
                SetResponseNormal {
                    invoke_id_and_priority: bytes[1],
                    result: DataAccessResult::from_code(bytes[2]),
                },
            ),
        )
    }
}

// --- Action-Request ---
#[derive(Debug, Clone, PartialEq)]
pub struct ActionRequestNormal {
    pub invoke_id_and_priority: InvokeIdAndPriority,
    pub cosem_method_descriptor: CosemMethodDescriptor,
    pub method_invocation_parameters: Option<CosemData>,
}

#[derive(Debug, Clone, PartialEq)]
pub struct ActionRequestWithList {
    pub invoke_id_and_priority: InvokeIdAndPriority,
    pub cosem_method_descriptor_list: Vec<CosemMethodDescriptor>,
    pub method_invocation_parameters: Vec<CosemData>,
}

#[derive(Debug, Clone, PartialEq)]
pub enum ActionRequest {
    Normal(ActionRequestNormal),
    WithList(ActionRequestWithList),
}

pub struct ActionRequestModel {
    pub invoke: u8,
    pub descriptor: DescriptorModel,
    pub parameters: Option<DataModel>,
}

pub open spec fn action_request_model(r: ActionRequestNormal) -> ActionRequestModel {
    ActionRequestModel {
        invoke: r.invoke_id_and_priority,
        descriptor: r.cosem_method_descriptor@,
        parameters: match r.method_invocation_parameters {
            Some(p) => Some(p@),
            None => None,
        },
    }
}

/// Flag 1 and an A-XDR value, or flag 0.
pub open spec fn opt_data_bytes(p: Option<DataModel>) -> Option<Seq<u8>> {
    match p {
        Some(d) => match data_bytes(d) {
            Some(b) => Some(seq![1u8] + b),
            None => None,
        },
        None => Some(seq![0u8]),
    }
}

/// An optional value at `i`: flag 1 and the value; any other flag is none.
pub open spec fn parse_opt_data(s: Seq<u8>, i: int) -> Option<Option<DataModel>> {
    if i < 0 || i >= s.len() {
        None
    } else if s[i] != 1 {
        Some(None)
    } else {
        match parse_data(s.subrange(i + 1, s.len() as int)) {
            Some((d, _)) => Some(Some(d)),
            None => None,
        }
    }
}

fn push_opt_data(buf: &mut Vec<u8>, p: &Option<CosemData>) -> (r: Result<(), DlmsError>)
    ensures
        match opt_data_bytes(
            match p {
                Some(d) => Some(d@),
                None => None,
            },
        ) {
            Some(b) => r is Ok && final(buf)@ == old(buf)@ + b,
            None => r is Err,
        },
{
    match p {
        Some(d) => {
            buf.push(1);
            let res = encode_data(d, buf);
            if res.is_err() {
                return Err(DlmsError::Unsupported);
            }
            assert(final(buf)@ =~= old(buf)@ + (seq![1u8] + data_bytes(d@)->0));
        },
        None => {
            buf.push(0);
            assert(final(buf)@ =~= old(buf)@ + seq![0u8]);
        },
    }
    Ok(())
}

fn read_opt_data(s: &[u8], i: usize) -> (r: Result<Option<CosemData>, DlmsError>)
    ensures
        match parse_opt_data(s@, i as int) {
            Some(p) => r matches Ok(v) && p == match v {
                Some(d) => Some(d@),
                None => None::<DataModel>,
            },
            None => (r matches Err(e) && e == DlmsError::Xdlms),
        },
{
    if i >= s.len() {
        return Err(DlmsError::Xdlms);
    }
    if s[i] != 1 {
        return Ok(None);
    }
    let tail = vstd::slice::slice_subrange(s, i + 1, s.len());
    let (d, _) = decode_data(tail)?;
    Ok(Some(d))
}

proof fn lemma_opt_data(s: Seq<u8>, i: int, p: Option<DataModel>)
    requires
        0 <= i,
        opt_data_bytes(p) is Some,
        i + opt_data_bytes(p)->0.len() <= s.len(),
        s.subrange(i, i + opt_data_bytes(p)->0.len()) == opt_data_bytes(p)->0,
    ensures
        parse_opt_data(s, i) == Some(p),
{
    let b = opt_data_bytes(p)->0;
    assert(s[i] == b[0]);
    match p {
        Some(d) => {
            let db = data_bytes(d)->0;
            let rest = s.subrange(i + b.len(), s.len() as int);
            assert(s.subrange(i + 1, s.len() as int) =~= db + rest) by {
                assert(s.subrange(i + 1, i + b.len()) =~= s.subrange(i, i + b.len()).subrange(
                    1,
                    b.len() as int,
                ));
            }
            lemma_data_round_trip(d, rest);
        },
        None => {},
    }
}

/// The normal Action-Request APDU, or `None` for parameters that cannot be
/// written.
pub open spec fn action_request_bytes(m: ActionRequestModel) -> Option<Seq<u8>> {
    match opt_data_bytes(m.parameters) {
        Some(pb) => Some(
            seq![TAG_ACTION_REQUEST_NORMAL, m.invoke] + descriptor_bytes(m.descriptor) + pb,
        ),
        None => None,
    }
}

/// What a normal Action-Request says; what follows is not looked at.
pub open spec fn parse_action_request(s: Seq<u8>) -> Option<ActionRequestModel> {
    if s.len() < 11 || s[0] != TAG_ACTION_REQUEST_NORMAL {
        None
    } else {
        match parse_opt_data(s, 11) {
            Some(p) => Some(
                ActionRequestModel { invoke: s[1], descriptor: descriptor_at(s, 2), parameters: p },
            ),
            None => None,
        }
    }
}

impl ActionRequest {
    /// The normal Action-Request APDU; the with-list form is not written.
    pub fn to_bytes(&self) -> (r: Result<Vec<u8>, DlmsError>)
        ensures
            match self {
                ActionRequest::Normal(req) => match action_request_bytes(
                    action_request_model(*req),
                ) {
                    Some(b) => r matches Ok(v) && v@ == b,
                    None => r is Err,
                },
                ActionRequest::WithList(_) => r == Err::<Vec<u8>, DlmsError>(DlmsError::Xdlms),
            },
    {
        match self {
            ActionRequest::Normal(req) => {
                let mut bytes: Vec<u8> = Vec::new();
                bytes.push(TAG_ACTION_REQUEST_NORMAL);
                bytes.push(req.invoke_id_and_priority);
                let d = &req.cosem_method_descriptor;
                push_descriptor(&mut bytes, d.class_id, &d.instance_id, d.method_id);
                push_opt_data(&mut bytes, &req.method_invocation_parameters)?;
                assert(bytes@ =~= action_request_bytes(action_request_model(*req))->0);
                Ok(bytes)
            },
            ActionRequest::WithList(_) => Err(DlmsError::Xdlms),
        }
    }

    /// Reads a normal Action-Request.
    pub fn from_bytes(bytes: &[u8]) -> (r: Result<Self, DlmsError>)
        ensures
            match parse_action_request(bytes@) {
                Some(m) => r matches Ok(ActionRequest::Normal(v)) && action_request_model(v) == m,
                None => (r matches Err(e) && e == DlmsError::Xdlms),
            },
    {
        if bytes.len() < 11 || bytes[0] != TAG_ACTION_REQUEST_NORMAL {
            return Err(DlmsError::Xdlms);
        }
        let invoke = bytes[1];
        let descriptor = read_method_descriptor(bytes, 2);
        let parameters = read_opt_data(bytes, 11)?;
        Ok(
            ActionRequest::Normal(
                ActionRequestNormal {
                    invoke_id_and_priority: invoke,
                    cosem_method_descriptor: descriptor,
                    method_invocation_parameters: parameters,
                },
            ),
        )
    }
}

// --- Action-Response ---
#[derive(Debug, Clone, PartialEq)]
pub struct ActionResponseWithOptionalData {
    pub result: ActionResult,
    pub return_parameters: Option<GetDataResult>,
}

#[derive(Debug, Clone, PartialEq)]
pub struct ActionResponseNormal {
    pub invoke_id_and_priority: InvokeIdAndPriority,
    pub single_response: ActionResponseWithOptionalData,
}

#[derive(Debug, Clone, PartialEq)]
pub struct ActionResponseWithList {
    pub invoke_id_and_priority: InvokeIdAndPriority,
    pub list_of_responses: Vec<ActionResponseWithOptionalData>,
}

#[derive(Debug, Clone, PartialEq)]
pub enum ActionResponse {
    Normal(ActionResponseNormal),
    WithList(ActionResponseWithList),
}

pub struct ActionResponseModel {
    pub invoke: u8,
    pub result: ActionResult,
    pub return_parameters: Option<GetDataResultModel>,
}

pub open spec fn action_response_model(r: ActionResponseNormal) -> ActionResponseModel {
    ActionResponseModel {
        invoke: r.invoke_id_and_priority,
        result: r.single_response.result,
        return_parameters: match r.single_response.return_parameters {
            Some(p) => Some(p@),
            None => None,
        },
    }
}

/// Return parameters: flag 1 and the result choice (0 and an A-XDR value
/// on success, 1 and a result code on failure), or flag 0.
pub open spec fn return_parameters_bytes(p: Option<GetDataResultModel>) -> Option<Seq<u8>> {
    match p {
        Some(r) => match get_result_bytes(r) {
            Some(b) => Some(seq![1u8] + b),
            None => None,
        },
        None => Some(seq![0u8]),
    }
}

/// The return parameters at `i`: flag 1 and a result choice; any other flag
/// is none.
pub open spec fn parse_return_parameters(s: Seq<u8>, i: int) -> Option<Option<GetDataResultModel>> {
    if i < 0 || i >= s.len() {
        None
    } else if s[i] != 1 {
        Some(None)
    } else {
        match parse_get_result(s, i + 1) {
            Some((r, _)) => Some(Some(r)),
            None => None,
        }
    }
}

/// The normal Action-Response APDU, or `None` for a value that cannot be
/// written.
pub open spec fn action_response_bytes(m: ActionResponseModel) -> Option<Seq<u8>> {
    match return_parameters_bytes(m.return_parameters) {
        Some(pb) => Some(seq![TAG_ACTION_RESPONSE_NORMAL, m.invoke, action_code(m.result)] + pb),
        None => None,
    }
}

/// What a normal Action-Response says; what follows the return
/// parameters is not looked at.
pub open spec fn parse_action_response(s: Seq<u8>) -> Option<ActionResponseModel> {
    if s.len() < 4 || s[0] != TAG_ACTION_RESPONSE_NORMAL {
        None
    } else {
        match parse_return_parameters(s, 3) {
            Some(p) => Some(
                ActionResponseModel { invoke: s[1], result: action_of_code(s[2]), return_parameters: p },
            ),
            None => None,
        }
    }
}

impl ActionResponse {
    /// The normal Action-Response APDU; the with-list form is not written.
    pub fn to_bytes(&self) -> (r: Result<Vec<u8>, DlmsError>)
        ensures
            match self {
                ActionResponse::Normal(res) => match action_response_bytes(
                    action_response_model(*res),
                ) {
                    Some(b) => r matches Ok(v) && v@ == b,
                    None => r is Err,
                },
                ActionResponse::WithList(_) => r == Err::<Vec<u8>, DlmsError>(DlmsError::Xdlms),
            },
    {
        match self {
            ActionResponse::Normal(res) => {
                let mut bytes: Vec<u8> = Vec::new();
                bytes.push(TAG_ACTION_RESPONSE_NORMAL);
                bytes.push(res.invoke_id_and_priority);
                bytes.push(res.single_response.result.code());
                match &res.single_response.return_parameters {
                    Some(p) => {
                        bytes.push(1);
                        push_get_result(&mut bytes, p)?;
                    },
                    None => {
                        bytes.push(0);
                    },
                }
                assert(bytes@ =~= action_response_bytes(action_response_model(*res))->0);
                Ok(bytes)
            },
            ActionResponse::WithList(_) => Err(DlmsError::Xdlms),
        }
    }

    /// Reads a normal Action-Response.
    pub fn from_bytes(bytes: &[u8]) -> (r: Result<Self, DlmsError>)
        ensures
            match parse_action_response(bytes@) {
                Some(m) => r matches Ok(ActionResponse::Normal(v)) && action_response_model(v)
                    == m,
                None => (r matches Err(e) && e == DlmsError::Xdlms),
            },
    {
        if bytes.len() < 4 || bytes[0] != TAG_ACTION_RESPONSE_NORMAL {
            return Err(DlmsError::Xdlms);
        }
        let invoke = bytes[1];
        let result = ActionResult::from_code(bytes[2]);
        let return_parameters = if bytes[3] != 1 {
            None
        } else {
            let (p, _) = read_get_result(bytes, 4)?;
            Some(p)
        };
        Ok(
            ActionResponse::Normal(
                ActionResponseNormal {
                    invoke_id_and_priority: invoke,
                    single_response: ActionResponseWithOptionalData { result, return_parameters },
                },
            ),
        )
    }
}

/// The six octets of every logical name in a descriptor.
pub open spec fn descriptor_wf(d: DescriptorModel) -> bool {
    d.instance_id.len() == 6
}

/// Every normal or with-list Get-Request that can be written reads back as
/// itself.
pub proof fn law_get_request_round_trip(m: GetRequestModel)
    requires
        !(m is Next),
        get_request_bytes(m) is Some,
        match m {
            GetRequestModel::Normal { descriptor, .. } => descriptor_wf(descriptor),
            GetRequestModel::WithList { descriptors, .. } => forall|j: int|
                0 <= j < descriptors.len() ==> descriptor_wf(#[trigger] descriptors[j]),
            _ => true,
        },
    ensures
        parse_get_request(get_request_bytes(m)->0) == Some(m),
{
    let s = get_request_bytes(m)->0;
    match m {
        GetRequestModel::Normal { invoke, descriptor, selection } => {
            let sb = selection_bytes(selection)->0;
            assert(s.subrange(2, 11) =~= descriptor_bytes(descriptor));
            lemma_descriptor(s, 2, descriptor);
            assert(s.subrange(11, 11 + sb.len() as int) =~= sb);
            lemma_selection(s, 11, selection);
        },
        GetRequestModel::WithList { invoke, descriptors } => {
            let n = descriptors.len();
            let body = descriptors_bytes(descriptors);
            assert forall|k: int| 0 <= k < n implies (#[trigger] descriptors[k]).instance_id.len()
                == 6 by {
                assert(descriptor_wf(descriptors[k]));
            }
            lemma_descriptors_bytes_len(descriptors);
            assert(((n as u8) as nat) == n);
            assert forall|j: int| 0 <= j < n implies descriptor_at(s, 3 + 9 * j)
                == #[trigger] descriptors[j] by {
                lemma_descriptors_at(descriptors, j);
                assert(s[3 + 9 * j] == body[9 * j]);
                assert(s[3 + 9 * j + 1] == body[9 * j + 1]);
                assert(s[3 + 9 * j + 8] == body[9 * j + 8]);
                assert(s.subrange(3 + 9 * j + 2, 3 + 9 * j + 8) =~= body.subrange(
                    9 * j + 2,
                    9 * j + 8,
                ));
            }
            assert(Seq::new(n, |j: int| descriptor_at(s, 3 + 9 * j)) =~= descriptors);
        },
        _ => {},
    }
}

/// Every normal or data-block Get-Response that can be written reads back
/// as itself, when its result code has one spelling.
pub proof fn law_get_response_round_trip(m: GetResponseModel)
    requires
        !(m is WithList),
        get_response_bytes(m) is Some,
        match m {
            GetResponseModel::Normal { result, .. } => get_result_canonical(result),
            _ => true,
        },
    ensures
        parse_get_response(get_response_bytes(m)->0) == Some(m),
{
    let s = get_response_bytes(m)->0;
    match m {
        GetResponseModel::Normal { invoke, result } => {
            let b = get_result_bytes(result)->0;
            assert(s.subrange(2, 2 + b.len() as int) =~= b);
            lemma_get_result(s, 2, result);
        },
        GetResponseModel::WithDataBlock { invoke, last_block, block_number, raw_data } => {
            let bb = be32(block_number);
            assert(s[3] == bb[0]);
            assert(s[4] == bb[1]);
            assert(s[5] == bb[2]);
            assert(s[6] == bb[3]);
            crate::axdr::lemma_be32_value(block_number);
            assert(s.subrange(7, s.len() as int) =~= raw_data);
        },
        _ => {},
    }
}

/// Every normal Set-Request that can be written reads back as itself.
pub proof fn law_set_request_round_trip(m: SetRequestModel)
    requires
        descriptor_wf(m.descriptor),
        set_request_bytes(m) is Some,
    ensures
        parse_set_request(set_request_bytes(m)->0) == Some(m),
{
    let s = set_request_bytes(m)->0;
    let sb = selection_bytes(m.selection)->0;
    let vb = data_bytes(m.value)->0;
    assert(s.subrange(2, 11) =~= descriptor_bytes(m.descriptor));
    lemma_descriptor(s, 2, m.descriptor);
    assert(s.subrange(11, 11 + sb.len() as int) =~= sb);
    lemma_selection(s, 11, m.selection);
    assert(s.subrange(11 + sb.len() as int, s.len() as int) =~= vb + Seq::<u8>::empty());
    lemma_data_round_trip(m.value, Seq::<u8>::empty());
}

/// Every normal Set-Response whose result code has one spelling reads back
/// as itself.
pub proof fn law_set_response_round_trip(m: SetResponseNormal)
    requires
        dar_canonical(m.result),
    ensures
        parse_set_response(set_response_bytes(m)) == Some(m),
{
}

/// Every normal Action-Request that can be written reads back as itself.
pub proof fn law_action_request_round_trip(m: ActionRequestModel)
    requires
        descriptor_wf(m.descriptor),
        action_request_bytes(m) is Some,
    ensures
        parse_action_request(action_request_bytes(m)->0) == Some(m),
{
    let s = action_request_bytes(m)->0;
    let pb = opt_data_bytes(m.parameters)->0;
    assert(s.subrange(2, 11) =~= descriptor_bytes(m.descriptor));
    lemma_descriptor(s, 2, m.descriptor);
    assert(s.subrange(11, 11 + pb.len() as int) =~= pb);
    lemma_opt_data(s, 11, m.parameters);
}

/// Every normal Action-Response that can be written reads back as itself,
/// success data and failure codes alike, when its result codes have one
/// spelling.
pub proof fn law_action_response_round_trip(m: ActionResponseModel)
    requires
        action_canonical(m.result),
        m.return_parameters matches Some(r) ==> get_result_canonical(r),
        action_response_bytes(m) is Some,
    ensures
        parse_action_response(action_response_bytes(m)->0) == Some(m),
{
    let s = action_response_bytes(m)->0;
    match m.return_parameters {
        Some(r) => {
            let b = get_result_bytes(r)->0;
            assert(s[3] == 1u8);
            assert(s.subrange(4, 4 + b.len() as int) =~= b);
            lemma_get_result(s, 4, r);
        },
        None => {
            assert(s[3] == 0u8);
        },
    }
}

/// The result encodings in front-to-back form.
pub open spec fn get_results_front(rs: Seq<GetDataResultModel>) -> Option<Seq<u8>>
    decreases rs.len(),
{
    if rs.len() == 0 {
        Some(Seq::empty())
    } else {
        match (get_result_bytes(rs[0]), get_results_front(rs.subrange(1, rs.len() as int))) {
            (Some(a), Some(b)) => Some(a + b),
            _ => None,
        }
    }
}

proof fn lemma_results_front_push(s: Seq<GetDataResultModel>, x: GetDataResultModel)
    ensures
        get_results_front(s.push(x)) == match (get_results_front(s), get_result_bytes(x)) {
            (Some(a), Some(b)) => Some(a + b),
            _ => None::<Seq<u8>>,
        },
    decreases s.len(),
{
    let t = s.push(x);
    if s.len() == 0 {
        assert(t.subrange(1, t.len() as int) =~= Seq::<GetDataResultModel>::empty());
        match get_result_bytes(x) {
            Some(b) => {
                assert(b + Seq::<u8>::empty() =~= b);
                assert(Seq::<u8>::empty() + b =~= b);
            },
            None => {},
        }
    } else {
        let tail = s.subrange(1, s.len() as int);
        assert(t.subrange(1, t.len() as int) =~= tail.push(x));
        lemma_results_front_push(tail, x);
        match (get_result_bytes(s[0]), get_results_front(tail), get_result_bytes(x)) {
            (Some(a), Some(m), Some(b)) => {
                assert(a + (m + b) =~= (a + m) + b);
            },
            _ => {},
        }
    }
}

proof fn lemma_results_back_front(rs: Seq<GetDataResultModel>)
    ensures
        get_results_bytes(rs) == get_results_front(rs),
    decreases rs.len(),
{
    if rs.len() > 0 {
        lemma_results_back_front(rs.drop_last());
        lemma_results_front_push(rs.drop_last(), rs.last());
        assert(rs.drop_last().push(rs.last()) =~= rs);
    }
}

proof fn lemma_parse_results(s: Seq<u8>, i: int, rs: Seq<GetDataResultModel>)
    requires
        0 <= i,
        get_results_front(rs) is Some,
        forall|j: int| 0 <= j < rs.len() ==> get_result_canonical(#[trigger] rs[j]),
        i + get_results_front(rs)->0.len() <= s.len(),
        s.subrange(i, i + get_results_front(rs)->0.len()) == get_results_front(rs)->0,
    ensures
        parse_get_results(s, i, rs.len()) == Some(rs),
    decreases rs.len(),
{
    if rs.len() == 0 {
        assert(rs =~= Seq::<GetDataResultModel>::empty());
    } else {
        let a = get_result_bytes(rs[0])->0;
        let tail = rs.subrange(1, rs.len() as int);
        let b = get_results_front(tail)->0;
        let whole = get_results_front(rs)->0;
        assert(whole == a + b);
        assert(s.subrange(i, i + a.len()) =~= s.subrange(i, i + whole.len()).subrange(0, a.len() as int));
        assert(whole.subrange(0, a.len() as int) =~= a);
        assert(get_result_canonical(rs[0]));
        lemma_get_result(s, i, rs[0]);
        assert forall|j: int| 0 <= j < tail.len() implies get_result_canonical(#[trigger] tail[j]) by {
            assert(tail[j] == rs[j + 1]);
        }
        assert(s.subrange(i + a.len(), i + a.len() + b.len()) =~= s.subrange(i, i + whole.len()).subrange(
            a.len() as int,
            whole.len() as int,
        ));
        assert(whole.subrange(a.len() as int, whole.len() as int) =~= b);
        lemma_parse_results(s, i + a.len(), tail);
        assert(seq![rs[0]] + tail =~= rs);
    }
}

/// Every Get-Response with a list that can be written reads back as itself,
/// when each result code in it has one spelling.
pub proof fn law_get_response_with_list_round_trip(invoke: u8, results: Seq<GetDataResultModel>)
    requires
        forall|j: int| 0 <= j < results.len() ==> get_result_canonical(#[trigger] results[j]),
        get_response_bytes(GetResponseModel::WithList { invoke, results }) is Some,
    ensures
        parse_get_response(get_response_bytes(GetResponseModel::WithList { invoke, results })->0)
            == Some(GetResponseModel::WithList { invoke, results }),
{
    let m = GetResponseModel::WithList { invoke, results };
    let s = get_response_bytes(m)->0;
    lemma_results_back_front(results);
    let b = get_results_front(results)->0;
    assert(s.subrange(3, 3 + b.len() as int) =~= b);
    assert(((results.len() as u8) as nat) == results.len());
    lemma_parse_results(s, 3, results);
}

} // verus!

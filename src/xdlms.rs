use vstd::prelude::*;

use crate::axdr::{append_bytes, be16, u16_at};
use crate::error::DlmsError;
use crate::length::{encode_length, MAX_ENCODED_LENGTH};
use crate::wire::{
    counted_bytes, lemma_counted, lemma_opt_byte, lemma_u16, opt_byte_bytes, parse_counted,
    parse_opt_byte, push_u16, read_counted, read_opt_byte, read_u16,
};

pub use crate::pdu::{
    ActionRequest, ActionRequestNormal, ActionRequestWithList, ActionResponse,
    ActionResponseNormal, ActionResponseWithList, ActionResponseWithOptionalData, ActionResult,
    DataAccessResult, DataBlockG, GetDataResult, GetRequest, GetRequestNext, GetRequestNormal,
    GetRequestWithList, GetResponse, GetResponseNormal, GetResponseWithDatablock,
    GetResponseWithList, SelectiveAccessDescriptor, SetRequest, SetRequestNormal,
    SetRequestWithList, SetResponse, SetResponseNormal, SetResponseWithList,
};

verus! {

pub type InvokeIdAndPriority = u8;

/// The conformance block: a 24-bit mask of negotiable services.
#[derive(Debug, Clone, Copy, PartialEq, Eq, Structural)]
pub struct Conformance {
    pub value: u32,
}

/// The three big-endian octets of the low 24 bits of a conformance mask.
pub open spec fn conformance_octets(value: u32) -> Seq<u8> {
    seq![((value / 0x1_0000) % 0x100) as u8, ((value / 0x100) % 0x100) as u8, (value % 0x100) as u8]
}

pub open spec fn conformance_at(s: Seq<u8>, i: int) -> u32 {
    (s[i] as nat * 0x1_0000 + s[i + 1] as nat * 0x100 + s[i + 2] as nat) as u32
}

impl Conformance {
    /// The mask as three big-endian octets (its low 24 bits).
    pub fn to_bytes(&self) -> (r: [u8; 3])
        ensures
            r@ == conformance_octets(self.value),
    {
        let r = [
            ((self.value / 0x1_0000) % 0x100) as u8,
            ((self.value / 0x100) % 0x100) as u8,
            (self.value % 0x100) as u8,
        ];
        assert(r@ =~= conformance_octets(self.value));
        r
    }

    /// Reads a mask from the first three octets; fewer than three is an error.
    pub fn from_bytes(bytes: &[u8]) -> (r: Result<Self, DlmsError>)
        ensures
            bytes@.len() < 3 ==> r == Err::<Conformance, DlmsError>(DlmsError::Xdlms),
            bytes@.len() >= 3 ==> r == Ok::<Conformance, DlmsError>(
                Conformance { value: conformance_at(bytes@, 0) },
            ),
    {
        if bytes.len() < 3 {
            return Err(DlmsError::Xdlms);
        }
        Ok(
            Conformance {
                value: (bytes[0] as u32) * 0x1_0000 + (bytes[1] as u32) * 0x100 + bytes[2] as u32,
            },
        )
    }

    /// The services that both masks hold.
    pub fn intersection(&self, other: &Conformance) -> (r: Conformance)
        ensures
            r.value == self.value & other.value,
    {
        Conformance { value: self.value & other.value }
    }

    /// Whether every service of `other` is in this mask.
    pub fn contains(&self, other: &Conformance) -> (r: bool)
        ensures
            r == (self.value & other.value == other.value),
    {
        self.value & other.value == other.value
    }

    /// Whether the mask holds no service.
    pub fn is_empty(&self) -> (r: bool)
        ensures
            r == (self.value == 0),
    {
        self.value == 0
    }
}

/// A mask fits the 24 bits that the wire carries.
pub open spec fn conformance_fits(c: Conformance) -> bool {
    c.value < 0x100_0000
}

/// The parameters that a peer proposes or accepts for an association.
#[derive(Debug, Clone, Copy, PartialEq, Eq, Structural)]
pub struct AssociationParameters {
    pub dlms_version: u8,
    pub conformance: Conformance,
    pub max_receive_pdu_size: u16,
    pub quality_of_service: Option<u8>,
}

pub const DEFAULT_DLMS_VERSION: u8 = 6;
pub const DEFAULT_CONFORMANCE: u32 = 0x0010_0000;
pub const DEFAULT_MAX_RECEIVE_PDU_SIZE: u16 = 0x0400;
pub const VAA_NAME_LN: u16 = 0x0007;

impl Default for AssociationParameters {
    fn default() -> (r: Self)
        ensures
            r.dlms_version == DEFAULT_DLMS_VERSION,
            r.conformance.value == DEFAULT_CONFORMANCE,
            r.max_receive_pdu_size == DEFAULT_MAX_RECEIVE_PDU_SIZE,
            r.quality_of_service is None,
    {
        AssociationParameters {
            dlms_version: DEFAULT_DLMS_VERSION,
            conformance: Conformance { value: DEFAULT_CONFORMANCE },
            max_receive_pdu_size: DEFAULT_MAX_RECEIVE_PDU_SIZE,
            quality_of_service: None,
        }
    }
}

/// The parameters that every association starts from.
pub fn default_association_parameters() -> (r: AssociationParameters)
    ensures
        r.dlms_version == DEFAULT_DLMS_VERSION,
        r.conformance.value == DEFAULT_CONFORMANCE,
        r.max_receive_pdu_size == DEFAULT_MAX_RECEIVE_PDU_SIZE,
        r.quality_of_service is None,
{
    AssociationParameters::default()
}

// --- InitiateRequest ---
#[derive(Debug, Clone, PartialEq)]
pub struct InitiateRequest {
    pub dedicated_key: Option<Vec<u8>>,
    pub response_allowed: bool,
    pub proposed_quality_of_service: Option<u8>,
    pub proposed_dlms_version_number: u8,
    pub proposed_conformance: Conformance,
    pub client_max_receive_pdu_size: u16,
}

/// What an InitiateRequest says, with the key as a sequence.
pub struct InitiateRequestModel {
    pub dedicated_key: Option<Seq<u8>>,
    pub response_allowed: bool,
    pub proposed_quality_of_service: Option<u8>,
    pub proposed_dlms_version_number: u8,
    pub proposed_conformance: u32,
    pub client_max_receive_pdu_size: u16,
}

impl View for InitiateRequest {
    type V = InitiateRequestModel;

    open spec fn view(&self) -> InitiateRequestModel {
        InitiateRequestModel {
            dedicated_key: match self.dedicated_key {
                Some(k) => Some(k@),
                None => None,
            },
            response_allowed: self.response_allowed,
            proposed_quality_of_service: self.proposed_quality_of_service,
            proposed_dlms_version_number: self.proposed_dlms_version_number,
            proposed_conformance: self.proposed_conformance.value,
            client_max_receive_pdu_size: self.client_max_receive_pdu_size,
        }
    }
}

/// The fixed header of the conformance block: `[APPLICATION 31]`, length 4,
/// no unused bits.
pub open spec fn conformance_block(value: u32) -> Seq<u8> {
    seq![0x5Fu8, 0x1Fu8, 0x04u8, 0x00u8] + conformance_octets(value)
}

pub open spec fn parse_conformance_block(s: Seq<u8>, i: int) -> Option<(u32, int)> {
    if 0 <= i && i + 7 <= s.len() && s[i] == 0x5F && s[i + 1] == 0x1F && s[i + 2] == 0x04 && s[i
        + 3] == 0x00 {
        Some((conformance_at(s, i + 4), i + 7))
    } else {
        None
    }
}

fn read_conformance_block(s: &[u8], i: usize) -> (r: Option<(u32, usize)>)
    ensures
        match parse_conformance_block(s@, i as int) {
            Some((v, j)) => r == Some((v, j as usize)),
            None => r is None,
        },
{
    if i <= s.len() && s.len() - i >= 7 && s[i] == 0x5F && s[i + 1] == 0x1F && s[i + 2] == 0x04
        && s[i + 3] == 0x00 {
        let v = (s[i + 4] as u32) * 0x1_0000 + (s[i + 5] as u32) * 0x100 + s[i + 6] as u32;
        Some((v, i + 7))
    } else {
        None
    }
}

fn push_conformance_block(buf: &mut Vec<u8>, c: &Conformance)
    ensures
        final(buf)@ == old(buf)@ + conformance_block(c.value),
{
    buf.push(0x5F);
    buf.push(0x1F);
    buf.push(0x04);
    buf.push(0x00);
    let b = c.to_bytes();
    buf.push(b[0]);
    buf.push(b[1]);
    buf.push(b[2]);
    assert(final(buf)@ =~= old(buf)@ + conformance_block(c.value));
}

proof fn lemma_conformance_block(s: Seq<u8>, i: int, value: u32)
    requires
        0 <= i,
        value < 0x100_0000,
        i + 7 <= s.len(),
        s.subrange(i, i + 7) == conformance_block(value),
    ensures
        parse_conformance_block(s, i) == Some((value, i + 7)),
{
    let b = conformance_block(value);
    assert(s[i] == b[0]);
    assert(s[i + 1] == b[1]);
    assert(s[i + 2] == b[2]);
    assert(s[i + 3] == b[3]);
    assert(s[i + 4] == b[4]);
    assert(s[i + 5] == b[5]);
    assert(s[i + 6] == b[6]);
}

pub open spec fn dedicated_key_bytes(k: Option<Seq<u8>>) -> Seq<u8> {
    match k {
        Some(v) => seq![1u8] + counted_bytes(v),
        None => seq![0u8],
    }
}

pub open spec fn response_allowed_bytes(b: bool) -> Seq<u8> {
    if b {
        seq![0u8]
    } else {
        seq![1u8, 0u8]
    }
}

/// The xDLMS InitiateRequest APDU, or `None` when the key is too long for
/// four length octets.
pub open spec fn initiate_request_bytes(m: InitiateRequestModel) -> Option<Seq<u8>> {
    match m.dedicated_key {
        Some(k) if k.len() > MAX_ENCODED_LENGTH => None,
        _ => Some(
            seq![0x01u8] + dedicated_key_bytes(m.dedicated_key) + response_allowed_bytes(
                m.response_allowed,
            ) + opt_byte_bytes(m.proposed_quality_of_service) + seq![
                m.proposed_dlms_version_number,
            ] + conformance_block(m.proposed_conformance) + be16(m.client_max_receive_pdu_size),
        ),
    }
}

pub open spec fn parse_dedicated_key(s: Seq<u8>, i: int) -> Option<(Option<Seq<u8>>, int)> {
    if i < 0 || i >= s.len() {
        None
    } else if s[i] == 0 {
        Some((None, i + 1))
    } else {
        match parse_counted(s, i + 1) {
            Some((v, j)) => Some((Some(v), j)),
            None => None,
        }
    }
}

pub open spec fn parse_response_allowed(s: Seq<u8>, i: int) -> Option<(bool, int)> {
    if i < 0 || i >= s.len() {
        None
    } else if s[i] == 0 {
        Some((true, i + 1))
    } else if i + 1 >= s.len() {
        None
    } else {
        Some((s[i + 1] != 0, i + 2))
    }
}

/// What an InitiateRequest APDU says; the whole input must be used.
pub open spec fn parse_initiate_request(s: Seq<u8>) -> Option<InitiateRequestModel> {
    if s.len() == 0 || s[0] != 0x01 {
        None
    } else {
        match parse_dedicated_key(s, 1) {
            None => None,
            Some((key, i1)) => match parse_response_allowed(s, i1) {
                None => None,
                Some((ra, i2)) => match parse_opt_byte(s, i2) {
                    None => None,
                    Some((qos, i3)) => if i3 >= s.len() {
                        None
                    } else {
                        match parse_conformance_block(s, i3 + 1) {
                            None => None,
                            Some((conf, i4)) => if i4 + 2 != s.len() {
                                None
                            } else {
                                Some(
                                    InitiateRequestModel {
                                        dedicated_key: key,
                                        response_allowed: ra,
                                        proposed_quality_of_service: qos,
                                        proposed_dlms_version_number: s[i3],
                                        proposed_conformance: conf,
                                        client_max_receive_pdu_size: u16_at(s, i4),
                                    },
                                )
                            },
                        }
                    },
                },
            },
        }
    }
}

// --- InitiateResponse ---
#[derive(Debug, Clone, Copy, PartialEq, Eq, Structural)]
pub struct InitiateResponse {
    pub negotiated_quality_of_service: Option<u8>,
    pub negotiated_dlms_version_number: u8,
    pub negotiated_conformance: Conformance,
    pub server_max_receive_pdu_size: u16,
    pub vaa_name: u16,
}

/// The xDLMS InitiateResponse APDU.
pub open spec fn initiate_response_bytes(m: InitiateResponse) -> Seq<u8> {
    seq![0x08u8] + opt_byte_bytes(m.negotiated_quality_of_service) + seq![
        m.negotiated_dlms_version_number,
    ] + conformance_block(m.negotiated_conformance.value) + be16(m.server_max_receive_pdu_size)
        + be16(m.vaa_name)
}

/// What an InitiateResponse APDU says; the whole input must be used.
pub open spec fn parse_initiate_response(s: Seq<u8>) -> Option<InitiateResponse> {
    if s.len() == 0 || s[0] != 0x08 {
        None
    } else {
        match parse_opt_byte(s, 1) {
            None => None,
            Some((qos, i1)) => if i1 >= s.len() {
                None
            } else {
                match parse_conformance_block(s, i1 + 1) {
                    None => None,
                    Some((conf, i2)) => if i2 + 4 != s.len() {
                        None
                    } else {
                        Some(
                            InitiateResponse {
                                negotiated_quality_of_service: qos,
                                negotiated_dlms_version_number: s[i1],
                                negotiated_conformance: Conformance { value: conf },
                                server_max_receive_pdu_size: u16_at(s, i2),
                                vaa_name: u16_at(s, i2 + 2),
                            },
                        )
                    },
                }
            },
        }
    }
}

/// An APDU carried in user-information: an octet string, tag `04`.
pub open spec fn user_information_bytes(apdu: Seq<u8>) -> Seq<u8> {
    seq![0x04u8] + counted_bytes(apdu)
}

/// The APDU inside user-information, which must fill the whole input.
pub open spec fn parse_user_information(s: Seq<u8>) -> Option<Seq<u8>> {
    if s.len() == 0 || s[0] != 0x04 {
        None
    } else {
        match parse_counted(s, 1) {
            Some((v, j)) => if j == s.len() {
                Some(v)
            } else {
                None
            },
            None => None,
        }
    }
}

fn wrap_user_information(apdu: &Vec<u8>) -> (r: Result<Vec<u8>, DlmsError>)
    ensures
        apdu@.len() <= MAX_ENCODED_LENGTH ==> (r matches Ok(v) && v@ == user_information_bytes(
            apdu@,
        )),
        apdu@.len() > MAX_ENCODED_LENGTH ==> r == Err::<Vec<u8>, DlmsError>(DlmsError::Xdlms),
{
    if apdu.len() > MAX_ENCODED_LENGTH {
        return Err(DlmsError::Xdlms);
    }
    let mut buffer: Vec<u8> = Vec::new();
    buffer.push(0x04);
    encode_length(&mut buffer, apdu.len());
    append_bytes(&mut buffer, apdu.as_slice());
    assert(buffer@ =~= user_information_bytes(apdu@));
    Ok(buffer)
}

fn unwrap_user_information(bytes: &[u8]) -> (r: Result<Vec<u8>, DlmsError>)
    ensures
        match parse_user_information(bytes@) {
            Some(v) => r matches Ok(w) && w@ == v,
            None => r == Err::<Vec<u8>, DlmsError>(DlmsError::Xdlms),
        },
{
    if bytes.len() == 0 || bytes[0] != 0x04 {
        return Err(DlmsError::Xdlms);
    }
    match read_counted(bytes, 1) {
        Some((v, j)) => {
            if j == bytes.len() {
                Ok(v)
            } else {
                Err(DlmsError::Xdlms)
            }
        },
        None => Err(DlmsError::Xdlms),
    }
}

proof fn lemma_user_information(apdu: Seq<u8>)
    requires
        apdu.len() <= MAX_ENCODED_LENGTH,
    ensures
        parse_user_information(user_information_bytes(apdu)) == Some(apdu),
{
    let s = user_information_bytes(apdu);
    assert(s.subrange(1, 1 + counted_bytes(apdu).len() as int) =~= counted_bytes(apdu));
    lemma_counted(s, 1, apdu);
}

impl InitiateRequest {
    /// The InitiateRequest APDU; an error only for a key longer than four
    /// length octets can count.
    pub fn to_bytes(&self) -> (r: Result<Vec<u8>, DlmsError>)
        ensures
            match initiate_request_bytes(self@) {
                Some(b) => r matches Ok(v) && v@ == b,
                None => r == Err::<Vec<u8>, DlmsError>(DlmsError::Xdlms),
            },
    {
        let mut bytes: Vec<u8> = Vec::new();
        bytes.push(0x01);
        match &self.dedicated_key {
            Some(key) => {
                if key.len() > MAX_ENCODED_LENGTH {
                    return Err(DlmsError::Xdlms);
                }
                bytes.push(0x01);
                encode_length(&mut bytes, key.len());
                append_bytes(&mut bytes, key.as_slice());
            },
            None => {
                bytes.push(0x00);
            },
        }
        if self.response_allowed {
            bytes.push(0x00);
        } else {
            bytes.push(0x01);
            bytes.push(0x00);
        }
        match self.proposed_quality_of_service {
            Some(qos) => {
                bytes.push(0x01);
                bytes.push(qos);
            },
            None => {
                bytes.push(0x00);
            },
        }
        bytes.push(self.proposed_dlms_version_number);
        push_conformance_block(&mut bytes, &self.proposed_conformance);
        push_u16(&mut bytes, self.client_max_receive_pdu_size);
        assert(bytes@ =~= initiate_request_bytes(self@)->0);
        Ok(bytes)
    }

    /// Reads an InitiateRequest APDU that fills the whole input.
    pub fn from_bytes(bytes: &[u8]) -> (r: Result<Self, DlmsError>)
        ensures
            match parse_initiate_request(bytes@) {
                Some(m) => r matches Ok(v) && v@ == m,
                None => r == Err::<InitiateRequest, DlmsError>(DlmsError::Xdlms),
            },
    {
        if bytes.len() == 0 || bytes[0] != 0x01 {
            return Err(DlmsError::Xdlms);
        }
        if bytes.len() < 2 {
            return Err(DlmsError::Xdlms);
        }
        let (dedicated_key, i1) = if bytes[1] == 0 {
            (None, 2usize)
        } else {
            match read_counted(bytes, 2) {
                Some((v, j)) => (Some(v), j),
                None => {
                    return Err(DlmsError::Xdlms);
                },
            }
        };
        if i1 >= bytes.len() {
            return Err(DlmsError::Xdlms);
        }
        let (response_allowed, i2) = if bytes[i1] == 0 {
            (true, i1 + 1)
        } else if i1 + 1 >= bytes.len() {
            return Err(DlmsError::Xdlms);
        } else {
            (bytes[i1 + 1] != 0, i1 + 2)
        };
        let (qos, i3) = match read_opt_byte(bytes, i2) {
            Some(p) => p,
            None => {
                return Err(DlmsError::Xdlms);
            },
        };
        if i3 >= bytes.len() {
            return Err(DlmsError::Xdlms);
        }
        let version = bytes[i3];
        let (conf, i4) = match read_conformance_block(bytes, i3 + 1) {
            Some(p) => p,
            None => {
                return Err(DlmsError::Xdlms);
            },
        };
        if i4 > bytes.len() || bytes.len() - i4 != 2 {
            return Err(DlmsError::Xdlms);
        }
        let pdu = read_u16(bytes, i4);
        Ok(
            InitiateRequest {
                dedicated_key,
                response_allowed,
                proposed_quality_of_service: qos,
                proposed_dlms_version_number: version,
                proposed_conformance: Conformance { value: conf },
                client_max_receive_pdu_size: pdu,
            },
        )
    }

    /// The APDU wrapped as an octet string for an ACSE user-information field.
    pub fn to_user_information(&self) -> (r: Result<Vec<u8>, DlmsError>)
        ensures
            match initiate_request_bytes(self@) {
                Some(b) => b.len() <= MAX_ENCODED_LENGTH ==> (r matches Ok(v) && v@
                    == user_information_bytes(b)),
                None => r is Err,
            },
    {
        let apdu = self.to_bytes()?;
        wrap_user_information(&apdu)
    }

    /// Reads the APDU out of an ACSE user-information field.
    pub fn from_user_information(bytes: &[u8]) -> (r: Result<Self, DlmsError>)
        ensures
            match parse_user_information(bytes@) {
                Some(a) => match parse_initiate_request(a) {
                    Some(m) => r matches Ok(v) && v@ == m,
                    None => r is Err,
                },
                None => r is Err,
            },
    {
        let apdu = unwrap_user_information(bytes)?;
        InitiateRequest::from_bytes(apdu.as_slice())
    }
}

impl InitiateResponse {
    /// The InitiateResponse APDU.
    pub fn to_bytes(&self) -> (r: Result<Vec<u8>, DlmsError>)
        ensures
            r matches Ok(v) && v@ == initiate_response_bytes(*self),
    {
        let mut bytes: Vec<u8> = Vec::new();
        bytes.push(0x08);
        match self.negotiated_quality_of_service {
            Some(qos) => {
                bytes.push(0x01);
                bytes.push(qos);
            },
            None => {
                bytes.push(0x00);
            },
        }
        bytes.push(self.negotiated_dlms_version_number);
        push_conformance_block(&mut bytes, &self.negotiated_conformance);
        push_u16(&mut bytes, self.server_max_receive_pdu_size);
        push_u16(&mut bytes, self.vaa_name);
        assert(bytes@ =~= initiate_response_bytes(*self));
        Ok(bytes)
    }

    /// Reads an InitiateResponse APDU that fills the whole input.
    pub fn from_bytes(bytes: &[u8]) -> (r: Result<Self, DlmsError>)
        ensures
            match parse_initiate_response(bytes@) {
                Some(m) => r == Ok::<InitiateResponse, DlmsError>(m),
                None => r == Err::<InitiateResponse, DlmsError>(DlmsError::Xdlms),
            },
    {
        if bytes.len() == 0 || bytes[0] != 0x08 {
            return Err(DlmsError::Xdlms);
        }
        let (qos, i1) = match read_opt_byte(bytes, 1) {
            Some(p) => p,
            None => {
                return Err(DlmsError::Xdlms);
            },
        };
        if i1 >= bytes.len() {
            return Err(DlmsError::Xdlms);
        }
        let version = bytes[i1];
        let (conf, i2) = match read_conformance_block(bytes, i1 + 1) {
            Some(p) => p,
            None => {
                return Err(DlmsError::Xdlms);
            },
        };
        if i2 > bytes.len() || bytes.len() - i2 != 4 {
            return Err(DlmsError::Xdlms);
        }
        let pdu = read_u16(bytes, i2);
        let vaa = read_u16(bytes, i2 + 2);
        Ok(
            InitiateResponse {
                negotiated_quality_of_service: qos,
                negotiated_dlms_version_number: version,
                negotiated_conformance: Conformance { value: conf },
                server_max_receive_pdu_size: pdu,
                vaa_name: vaa,
            },
        )
    }

    /// The APDU wrapped as an octet string for an ACSE user-information field.
    pub fn to_user_information(&self) -> (r: Result<Vec<u8>, DlmsError>)
        ensures
            r matches Ok(v) && v@ == user_information_bytes(initiate_response_bytes(*self)),
    {
        let apdu = self.to_bytes()?;
        wrap_user_information(&apdu)
    }

    /// Reads the APDU out of an ACSE user-information field.
    pub fn from_user_information(bytes: &[u8]) -> (r: Result<Self, DlmsError>)
        ensures
            match parse_user_information(bytes@) {
                Some(a) => match parse_initiate_response(a) {
                    Some(m) => r == Ok::<InitiateResponse, DlmsError>(m),
                    None => r is Err,
                },
                None => r is Err,
            },
    {
        let apdu = unwrap_user_information(bytes)?;
        InitiateResponse::from_bytes(apdu.as_slice())
    }
}

impl AssociationParameters {
    /// The InitiateRequest that proposes these parameters.
    pub fn to_initiate_request(&self) -> (r: InitiateRequest)
        ensures
            r.dedicated_key is None,
            r.response_allowed,
            r.proposed_quality_of_service == self.quality_of_service,
            r.proposed_dlms_version_number == self.dlms_version,
            r.proposed_conformance == self.conformance,
            r.client_max_receive_pdu_size == self.max_receive_pdu_size,
    {
        InitiateRequest {
            dedicated_key: None,
            response_allowed: true,
            proposed_quality_of_service: self.quality_of_service,
            proposed_dlms_version_number: self.dlms_version,
            proposed_conformance: self.conformance,
            client_max_receive_pdu_size: self.max_receive_pdu_size,
        }
    }

    /// The InitiateResponse that grants `negotiated_conformance` under these
    /// parameters.
    pub fn to_initiate_response(&self, negotiated_conformance: Conformance) -> (r:
        InitiateResponse)
        ensures
            r == (InitiateResponse {
                negotiated_quality_of_service: self.quality_of_service,
                negotiated_dlms_version_number: self.dlms_version,
                negotiated_conformance,
                server_max_receive_pdu_size: self.max_receive_pdu_size,
                vaa_name: VAA_NAME_LN,
            }),
    {
        InitiateResponse {
            negotiated_quality_of_service: self.quality_of_service,
            negotiated_dlms_version_number: self.dlms_version,
            negotiated_conformance,
            server_max_receive_pdu_size: self.max_receive_pdu_size,
            vaa_name: VAA_NAME_LN,
        }
    }
}

/// Every InitiateRequest whose conformance fits 24 bits reads back as
/// itself, both as a bare APDU and through user-information.
#[verifier::rlimit(60)]
pub proof fn law_initiate_request_round_trip(m: InitiateRequestModel)
    requires
        m.proposed_conformance < 0x100_0000,
        initiate_request_bytes(m) is Some,
    ensures
        parse_initiate_request(initiate_request_bytes(m)->0) == Some(m),
        initiate_request_bytes(m)->0.len() <= MAX_ENCODED_LENGTH ==> parse_user_information(
            user_information_bytes(initiate_request_bytes(m)->0),
        ) == Some(initiate_request_bytes(m)->0),
{
    let s = initiate_request_bytes(m)->0;
    let kb = dedicated_key_bytes(m.dedicated_key);
    let rb = response_allowed_bytes(m.response_allowed);
    let qb = opt_byte_bytes(m.proposed_quality_of_service);
    let i1: int = 1 + kb.len() as int;
    let i2: int = i1 + rb.len() as int;
    let i3: int = i2 + qb.len() as int;
    let i4: int = i3 + 1 + 7;
    assert(s.len() == i4 + 2);
    match m.dedicated_key {
        Some(k) => {
            assert(s.subrange(2, 2 + counted_bytes(k).len() as int) =~= counted_bytes(k));
            lemma_counted(s, 2, k);
        },
        None => {},
    }
    assert(s.subrange(i1 as int, i2 as int) =~= rb);
    assert(s[i1 as int] == rb[0]);
    if !m.response_allowed {
        assert(s[i1 + 1] == rb[1]);
    }
    assert(s.subrange(i2 as int, i3 as int) =~= qb);
    lemma_opt_byte(s, i2 as int, m.proposed_quality_of_service);
    assert(s[i3 as int] == m.proposed_dlms_version_number);
    assert(s.subrange(i3 + 1, i3 + 8) =~= conformance_block(m.proposed_conformance));
    lemma_conformance_block(s, i3 + 1, m.proposed_conformance);
    assert(s.subrange(i4 as int, i4 + 2) =~= be16(m.client_max_receive_pdu_size));
    lemma_u16(s, i4 as int, m.client_max_receive_pdu_size);
    assert(parse_initiate_request(s)->0 =~= m);
    if s.len() <= MAX_ENCODED_LENGTH {
        lemma_user_information(s);
    }
}

/// Every InitiateResponse whose conformance fits 24 bits reads back as
/// itself, both as a bare APDU and through user-information.
pub proof fn law_initiate_response_round_trip(m: InitiateResponse)
    requires
        conformance_fits(m.negotiated_conformance),
    ensures
        parse_initiate_response(initiate_response_bytes(m)) == Some(m),
        parse_user_information(user_information_bytes(initiate_response_bytes(m))) == Some(
            initiate_response_bytes(m),
        ),
{
    let s = initiate_response_bytes(m);
    let qb = opt_byte_bytes(m.negotiated_quality_of_service);
    let i1: int = 1 + qb.len() as int;
    let i2: int = i1 + 1 + 7;
    assert(s.subrange(1, i1 as int) =~= qb);
    lemma_opt_byte(s, 1, m.negotiated_quality_of_service);
    assert(s[i1 as int] == m.negotiated_dlms_version_number);
    assert(s.subrange(i1 + 1, i1 + 8) =~= conformance_block(m.negotiated_conformance.value));
    lemma_conformance_block(s, i1 + 1, m.negotiated_conformance.value);
    assert(s.subrange(i2 as int, i2 + 2) =~= be16(m.server_max_receive_pdu_size));
    lemma_u16(s, i2 as int, m.server_max_receive_pdu_size);
    assert(s.subrange(i2 + 2, i2 + 4) =~= be16(m.vaa_name));
    lemma_u16(s, i2 + 2, m.vaa_name);
    lemma_user_information(s);
}

/// An InitiateResponse in user-information takes at most twenty octets.
pub proof fn lemma_response_user_information_len(m: InitiateResponse)
    ensures
        user_information_bytes(initiate_response_bytes(m)).len() <= 20,
{
    let b = initiate_response_bytes(m);
    assert(b.len() <= 18);
    crate::length::lemma_length_octets_len(b.len());
}

} // verus!

use vstd::prelude::*;

use crate::error::DlmsError;
use crate::hdlc::HdlcFrameError;
use crate::security::SecurityError;
use crate::types::copy_bytes;
use crate::xdlms::{AssociationParameters, Conformance, InitiateRequest, InitiateResponse, VAA_NAME_LN};

verus! {

pub const PUBLIC_CLIENT_SAP: u16 = 0x0010;

pub const METER_READER_CLIENT_SAP: u16 = 0x0020;

pub const CONFIGURATOR_CLIENT_SAP: u16 = 0x0030;

/// The length of an LLS challenge.
pub const CHALLENGE_LEN: usize = 16;

/// The logical name `0.0.40.0.k.255` of the k-th predefined Association LN.
pub open spec fn association_ln_spec(k: u8) -> Seq<u8> {
    seq![0x00u8, 0x00u8, 0x28u8, 0x00u8, k, 0xFFu8]
}

pub(crate) fn association_ln(k: u8) -> (r: [u8; 6])
    ensures
        r@ == association_ln_spec(k),
{
    let r = [0x00, 0x00, 0x28, 0x00, k, 0xFF];
    assert(r@ =~= association_ln_spec(k));
    r
}

/// The mechanism name `"LLS"`.
pub open spec fn lls_mechanism_spec() -> Seq<u8> {
    seq![0x4Cu8, 0x4Cu8, 0x53u8]
}

/// The mechanism name `"NO_AUTH"`.
pub(crate) fn no_auth_mechanism() -> (r: Vec<u8>) {
    let mut v: Vec<u8> = Vec::new();
    v.push(0x4E);
    v.push(0x4F);
    v.push(0x5F);
    v.push(0x41);
    v.push(0x55);
    v.push(0x54);
    v.push(0x48);
    v
}

pub fn lls_mechanism() -> (r: Vec<u8>)
    ensures
        r@ == lls_mechanism_spec(),
{
    let mut v: Vec<u8> = Vec::new();
    v.push(0x4C);
    v.push(0x4C);
    v.push(0x53);
    assert(v@ =~= lls_mechanism_spec());
    v
}

/// The application context name `"LN_WITH_NO_CIPHERING"`.
pub open spec fn ln_with_no_ciphering_spec() -> Seq<u8> {
    seq![
        0x4Cu8, 0x4Eu8, 0x5Fu8, 0x57u8, 0x49u8, 0x54u8, 0x48u8, 0x5Fu8, 0x4Eu8, 0x4Fu8, 0x5Fu8, 0x43u8,
        0x49u8, 0x50u8, 0x48u8, 0x45u8, 0x52u8, 0x49u8, 0x4Eu8, 0x47u8,
    ]
}

/// The application context name `"LN_WITH_NO_CIPHERING"`.
pub fn ln_with_no_ciphering() -> (r: Vec<u8>)
    ensures
        r@ == ln_with_no_ciphering_spec(),
{
    let text: [u8; 20] = [
        0x4C, 0x4E, 0x5F, 0x57, 0x49, 0x54, 0x48, 0x5F, 0x4E, 0x4F, 0x5F, 0x43, 0x49, 0x50, 0x48,
        0x45, 0x52, 0x49, 0x4E, 0x47,
    ];
    assert(text@ =~= ln_with_no_ciphering_spec());
    copy_bytes(text.as_slice())
}

/// Whether two byte strings are equal.
pub fn bytes_equal(a: &[u8], b: &[u8]) -> (r: bool)
    ensures
        r == (a@ == b@),
{
    if a.len() != b.len() {
        return false;
    }
    let mut i: usize = 0;
    while i < a.len()
        invariant
            i <= a@.len(),
            a@.len() == b@.len(),
            forall|j: int| 0 <= j < i ==> a@[j] == b@[j],
        decreases a.len() - i,
    {
        if a[i] != b[i] {
            return false;
        }
        i = i + 1;
    }
    assert(a@ =~= b@);
    true
}

#[derive(Debug)]
pub enum ServerError<E> {
    HdlcError(HdlcFrameError),
    AcseError,
    TransportError(E),
    SecurityError(SecurityError),
    DlmsError(DlmsError),
}

/// What the server keeps of an association: the client's receive limit.
#[derive(Debug, Clone, Copy, PartialEq, Eq, Structural)]
pub struct AssociationContext {
    pub client_max_receive_pdu_size: u16,
}

/// Why an InitiateRequest is refused, with the diagnostic it is reported by.
#[derive(Debug, Clone, Copy, PartialEq, Eq, Structural)]
pub enum InitiateValidationError {
    ResponseNotAllowed,
    DlmsVersionMismatch,
    InvalidClientPduSize,
    NoCommonConformance,
}

pub open spec fn diagnostic_code(e: InitiateValidationError) -> u8 {
    match e {
        InitiateValidationError::ResponseNotAllowed => 1,
        InitiateValidationError::DlmsVersionMismatch => 2,
        InitiateValidationError::InvalidClientPduSize => 3,
        InitiateValidationError::NoCommonConformance => 4,
    }
}

impl InitiateValidationError {
    pub fn diagnostic(self) -> (r: u8)
        ensures
            r == diagnostic_code(self),
    {
        match self {
            InitiateValidationError::ResponseNotAllowed => 1,
            InitiateValidationError::DlmsVersionMismatch => 2,
            InitiateValidationError::InvalidClientPduSize => 3,
            InitiateValidationError::NoCommonConformance => 4,
        }
    }
}

/// The server's answer to an InitiateRequest under `params`: the checks in
/// order, then the common conformance, and the client's quality of service
/// where the server sets none.
pub open spec fn negotiation_outcome(
    params: AssociationParameters,
    request: crate::xdlms::InitiateRequestModel,
) -> Result<InitiateResponse, InitiateValidationError> {
    if !request.response_allowed {
        Err(InitiateValidationError::ResponseNotAllowed)
    } else if request.proposed_dlms_version_number != params.dlms_version {
        Err(InitiateValidationError::DlmsVersionMismatch)
    } else if request.client_max_receive_pdu_size == 0 {
        Err(InitiateValidationError::InvalidClientPduSize)
    } else if params.conformance.value & request.proposed_conformance == 0 {
        Err(InitiateValidationError::NoCommonConformance)
    } else {
        Ok(
            InitiateResponse {
                negotiated_quality_of_service: match params.quality_of_service {
                    Some(q) => Some(q),
                    None => request.proposed_quality_of_service,
                },
                negotiated_dlms_version_number: params.dlms_version,
                negotiated_conformance: Conformance {
                    value: params.conformance.value & request.proposed_conformance,
                },
                server_max_receive_pdu_size: params.max_receive_pdu_size,
                vaa_name: VAA_NAME_LN,
            },
        )
    }
}

/// Negotiates an association from the server's parameters and the client's
/// InitiateRequest.
pub fn negotiate_initiate_response(params: &AssociationParameters, request: &InitiateRequest) -> (r:
    Result<InitiateResponse, InitiateValidationError>)
    ensures
        r == negotiation_outcome(*params, request@),
{
    if !request.response_allowed {
        return Err(InitiateValidationError::ResponseNotAllowed);
    }
    if request.proposed_dlms_version_number != params.dlms_version {
        return Err(InitiateValidationError::DlmsVersionMismatch);
    }
    if request.client_max_receive_pdu_size == 0 {
        return Err(InitiateValidationError::InvalidClientPduSize);
    }
    let negotiated_conformance = params.conformance.intersection(&request.proposed_conformance);
    if negotiated_conformance.is_empty() {
        return Err(InitiateValidationError::NoCommonConformance);
    }
    let mut response = params.to_initiate_response(negotiated_conformance);
    if response.negotiated_quality_of_service.is_none() {
        response.negotiated_quality_of_service = request.proposed_quality_of_service;
    }
    Ok(response)
}

/// A negotiated conformance lies within both the client's proposal and the
/// server's own conformance.
pub proof fn law_negotiated_conformance_within_both(
    params: AssociationParameters,
    request: crate::xdlms::InitiateRequestModel,
)
    requires
        negotiation_outcome(params, request) is Ok,
    ensures
        ({
            let n = negotiation_outcome(params, request)->Ok_0.negotiated_conformance.value;
            &&& n & request.proposed_conformance == n
            &&& n & params.conformance.value == n
        }),
{
    let s = params.conformance.value;
    let p = request.proposed_conformance;
    assert((s & p) & p == (s & p)) by (bit_vector);
    assert((s & p) & s == (s & p)) by (bit_vector);
}

/// Without a common conformance the server refuses with diagnostic 4, a
/// different DLMS version with diagnostic 2, a request that allows no
/// response with diagnostic 1 (each when the earlier checks pass).
pub proof fn law_negotiation_refusals(
    params: AssociationParameters,
    request: crate::xdlms::InitiateRequestModel,
)
    ensures
        !request.response_allowed ==> negotiation_outcome(params, request) == Err::<
            InitiateResponse,
            InitiateValidationError,
        >(InitiateValidationError::ResponseNotAllowed),
        request.response_allowed && request.proposed_dlms_version_number != params.dlms_version
            ==> negotiation_outcome(params, request) == Err::<
            InitiateResponse,
            InitiateValidationError,
        >(InitiateValidationError::DlmsVersionMismatch),
        request.response_allowed && request.proposed_dlms_version_number == params.dlms_version
            && request.client_max_receive_pdu_size != 0 && params.conformance.value
            & request.proposed_conformance == 0 ==> negotiation_outcome(params, request) == Err::<
            InitiateResponse,
            InitiateValidationError,
        >(InitiateValidationError::NoCommonConformance),
{
}

} // verus!

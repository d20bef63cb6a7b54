use vstd::prelude::*;

use crate::acse::{
    aarq_bytes, frame_bytes, opt_view, parse_aare, parse_release, release_content, AareApdu, AarqApdu,
    AarqModel, ArlreApdu, ArlrqApdu, ReleaseModel, TAG_RLRE, TAG_RLRQ,
};
use crate::hdlc::{hdlc_bytes, HdlcFrameModel};
use crate::negotiation::{ln_with_no_ciphering, ln_with_no_ciphering_spec, lls_mechanism_spec};
use crate::error::DlmsError;
use crate::hdlc::HdlcFrame;
use crate::pdu::{ActionRequest, ActionResponse, GetRequest, GetResponse, SetRequest, SetResponse};
use crate::security::{hls_decrypt, hls_encrypt, lls_authenticate, SecurityError};
use crate::transport::Transport;
use crate::types::copy_bytes;
use crate::xdlms::{
    initiate_request_bytes, parse_initiate_response, parse_user_information, user_information_bytes,
    AssociationParameters, Conformance, InitiateRequestModel, InitiateResponse,
};

verus! {

#[derive(Debug)]
pub enum ClientError<E> {
    AcseError,
    TransportError(E),
    DlmsError(DlmsError),
    SecurityError(SecurityError),
    AssociationRejected { result: u8, diagnostic: u8 },
    NegotiationFailed(&'static str),
    ReleaseRejected(u8),
    AssociationNotEstablished,
}

#[derive(Debug, Clone, Copy, PartialEq, Eq, Structural)]
pub struct NegotiatedAssociationParameters {
    pub negotiated_quality_of_service: Option<u8>,
    pub negotiated_dlms_version_number: u8,
    pub negotiated_conformance: Conformance,
    pub server_max_receive_pdu_size: u16,
}

/// Whether the client accepts the server's InitiateResponse: the same DLMS
/// version, a conformance that is not empty and lies within the proposal,
/// the quality of service asked for (if any), and a server PDU size that is
/// not zero.
pub open spec fn response_acceptable(params: AssociationParameters, response: InitiateResponse) -> bool {
    &&& response.negotiated_dlms_version_number == params.dlms_version
    &&& response.negotiated_conformance.value != 0
    &&& params.conformance.value & response.negotiated_conformance.value
        == response.negotiated_conformance.value
    &&& match params.quality_of_service {
        Some(q) => response.negotiated_quality_of_service == Some(q),
        None => true,
    }
    &&& response.server_max_receive_pdu_size != 0
}

pub open spec fn negotiated_from(response: InitiateResponse) -> NegotiatedAssociationParameters {
    NegotiatedAssociationParameters {
        negotiated_quality_of_service: response.negotiated_quality_of_service,
        negotiated_dlms_version_number: response.negotiated_dlms_version_number,
        negotiated_conformance: response.negotiated_conformance,
        server_max_receive_pdu_size: response.server_max_receive_pdu_size,
    }
}

/// The AARQ that a client with parameters `params` sends: context name
/// `LN_WITH_NO_CIPHERING`, sender requirements 0, mechanism `"LLS"` exactly
/// when it has a password, the given authentication value, and the
/// InitiateRequest of `params` in user-information.
pub open spec fn association_request_model(
    params: AssociationParameters,
    with_password: bool,
    auth: Option<Seq<u8>>,
) -> AarqModel {
    AarqModel {
        application_context_name: ln_with_no_ciphering_spec(),
        sender_acse_requirements: 0,
        mechanism_name: if with_password {
            Some(lls_mechanism_spec())
        } else {
            None
        },
        calling_authentication_value: auth,
        user_information: user_information_bytes(
            initiate_request_bytes(proposed_request(params))->0,
        ),
    }
}

/// The InitiateRequest that proposes `params`.
pub open spec fn proposed_request(params: AssociationParameters) -> InitiateRequestModel {
    InitiateRequestModel {
        dedicated_key: None,
        response_allowed: true,
        proposed_quality_of_service: params.quality_of_service,
        proposed_dlms_version_number: params.dlms_version,
        proposed_conformance: params.conformance.value,
        client_max_receive_pdu_size: params.max_receive_pdu_size,
    }
}

/// The frame bytes that carry `information` from the client at `address`.
pub open spec fn client_frame(address: u16, information: Seq<u8>) -> Seq<u8> {
    hdlc_bytes(HdlcFrameModel { address, control: 0, information })
}

/// The frame that carries an AARQ from the client at `address`; an
/// authentication value longer than 0xFFFF octets is refused.
pub fn association_request_frame(
    address: u16,
    params: &AssociationParameters,
    with_password: bool,
    auth: Option<Vec<u8>>,
) -> (r: Result<Vec<u8>, DlmsError>)
    ensures
        (auth matches Some(a) ==> a@.len() <= 0xFFFF) ==> (r matches Ok(b) && b@ == client_frame(
            address,
            aarq_bytes(association_request_model(*params, with_password, opt_view(auth))),
        )),
{
    if let Some(a) = &auth {
        if a.len() > 0xFFFF {
            return Err(DlmsError::Acse);
        }
    }
    let request = params.to_initiate_request();
    proof {
        assert(request@ == proposed_request(*params));
        crate::length::lemma_length_octets_len(initiate_request_bytes(request@)->0.len());
    }
    let user_information = request.to_user_information()?;
    let mechanism = if with_password {
        Some(crate::negotiation::lls_mechanism())
    } else {
        None
    };
    let aarq = AarqApdu {
        application_context_name: ln_with_no_ciphering(),
        sender_acse_requirements: 0,
        mechanism_name: mechanism,
        calling_authentication_value: auth,
        user_information,
    };
    proof {
        assert(aarq@ == association_request_model(*params, with_password, opt_view(aarq.calling_authentication_value)));
        crate::acse::lemma_aarq_fits(aarq@);
    }
    let bytes = aarq.to_bytes()?;
    request_frame(address, bytes)
}

/// The frame that carries `information` from the client at `address`.
pub fn request_frame(address: u16, information: Vec<u8>) -> (r: Result<Vec<u8>, DlmsError>)
    ensures
        r matches Ok(b) && b@ == client_frame(address, information@),
{
    HdlcFrame { address, control: 0, information }.to_bytes()
}

/// The frame that carries the RLRQ a client sends: reason 0, no
/// user-information.
pub fn release_request_frame(address: u16) -> (r: Result<Vec<u8>, DlmsError>)
    ensures
        r matches Ok(b) && b@ == client_frame(
            address,
            frame_bytes(TAG_RLRQ, release_content(ReleaseModel { reason: Some(0), user_information: None })),
        ),
{
    let request = ArlrqApdu { reason: Some(0), user_information: None };
    proof {
        crate::acse::lemma_release_fits(request@);
    }
    let bytes = request.to_bytes()?;
    request_frame(address, bytes)
}

/// What the client does next after an accepted AARE.
pub enum AssociationStep {
    /// The association stands with these parameters.
    Associated(NegotiatedAssociationParameters),
    /// The server sent this LLS challenge; the client answers it.
    AnswerChallenge(Vec<u8>),
}

/// Reads the information of an AARE frame: an AARE that does not read is
/// `AcseError`, one whose user-information holds no InitiateResponse is a
/// DLMS error, a result other than 0 is `AssociationRejected`, a response
/// that the proposal does not accept is `NegotiationFailed`; else, with a
/// password and a challenge in the AARE, the challenge is to be answered,
/// and otherwise the association stands.
pub fn read_association_reply<E>(params: &AssociationParameters, with_password: bool, information: &[u8]) -> (r: Result<
    (AareApdu, AssociationStep),
    ClientError<E>,
>)
    ensures
        match parse_aare(information@) {
            None => r matches Err(ClientError::AcseError),
            Some((a, _)) => match parse_user_information(a.user_information) {
                Some(ui) => match parse_initiate_response(ui) {
                    Some(resp) => if a.result != 0 {
                        r matches Err(ClientError::AssociationRejected { result, diagnostic }) && result == a.result
                            && diagnostic == a.result_source_diagnostic
                    } else if !response_acceptable(*params, resp) {
                        r matches Err(ClientError::NegotiationFailed(_))
                    } else if with_password && a.responding_authentication_value is Some {
                        r matches Ok((aare, AssociationStep::AnswerChallenge(c))) && aare@ == a
                            && c@ == a.responding_authentication_value->0
                    } else {
                        r matches Ok((aare, AssociationStep::Associated(n))) && aare@ == a
                            && n == negotiated_from(resp)
                    },
                    None => r matches Err(ClientError::DlmsError(_)),
                },
                None => r matches Err(ClientError::DlmsError(_)),
            },
        },
{
    let aare = match AareApdu::from_bytes(information) {
        Ok((_, a)) => a,
        Err(_) => {
            return Err(ClientError::AcseError);
        },
    };
    let response = match InitiateResponse::from_user_information(aare.user_information.as_slice()) {
        Ok(r) => r,
        Err(e) => {
            return Err(ClientError::DlmsError(e));
        },
    };
    if aare.result != 0 {
        return Err(
            ClientError::AssociationRejected {
                result: aare.result,
                diagnostic: aare.result_source_diagnostic,
            },
        );
    }
    let negotiated = check_initiate_response(params, &response)?;
    let challenge = match &aare.responding_authentication_value {
        Some(c) => if with_password {
            Some(copy_bytes(c.as_slice()))
        } else {
            None
        },
        None => None,
    };
    match challenge {
        Some(c) => Ok((aare, AssociationStep::AnswerChallenge(c))),
        None => Ok((aare, AssociationStep::Associated(negotiated))),
    }
}

/// Reads the information of an RLRE frame: one that does not read is
/// `AcseError`, a reason other than 0 is `ReleaseRejected`, else the release
/// stands.
pub fn read_release_reply<E>(information: &[u8]) -> (r: Result<(), ClientError<E>>)
    ensures
        match parse_release(information@, TAG_RLRE) {
            None => r matches Err(ClientError::AcseError),
            Some((m, _)) => match m.reason {
                Some(x) => if x != 0 {
                    r matches Err(ClientError::ReleaseRejected(y)) && y == x
                } else {
                    r is Ok
                },
                None => r is Ok,
            },
        },
{
    let response = match ArlreApdu::from_bytes(information) {
        Ok((_, r)) => r,
        Err(_) => {
            return Err(ClientError::AcseError);
        },
    };
    match response.reason {
        Some(reason) => {
            if reason != 0 {
                return Err(ClientError::ReleaseRejected(reason));
            }
        },
        None => {},
    }
    Ok(())
}

/// Checks the server's InitiateResponse against the proposal `params`.
pub fn check_initiate_response<E>(params: &AssociationParameters, response: &InitiateResponse) -> (r: Result<
    NegotiatedAssociationParameters,
    ClientError<E>,
>)
    ensures
        response_acceptable(*params, *response) ==> r == Ok::<
            NegotiatedAssociationParameters,
            ClientError<E>,
        >(negotiated_from(*response)),
        !response_acceptable(*params, *response) ==> r matches Err(ClientError::NegotiationFailed(_)),
{
    if response.negotiated_dlms_version_number != params.dlms_version {
        return Err(ClientError::NegotiationFailed("DLMS version mismatch"));
    }
    if response.negotiated_conformance.is_empty() {
        return Err(ClientError::NegotiationFailed("no negotiated conformance"));
    }
    if !params.conformance.contains(&response.negotiated_conformance) {
        return Err(ClientError::NegotiationFailed("unsupported negotiated conformance"));
    }
    match params.quality_of_service {
        Some(expected) => {
            match response.negotiated_quality_of_service {
                Some(q) => {
                    if q != expected {
                        return Err(ClientError::NegotiationFailed("quality of service mismatch"));
                    }
                },
                None => {
                    return Err(ClientError::NegotiationFailed("quality of service mismatch"));
                },
            }
        },
        None => {},
    }
    if response.server_max_receive_pdu_size == 0 {
        return Err(ClientError::NegotiationFailed("invalid server PDU size"));
    }
    Ok(
        NegotiatedAssociationParameters {
            negotiated_quality_of_service: response.negotiated_quality_of_service,
            negotiated_dlms_version_number: response.negotiated_dlms_version_number,
            negotiated_conformance: response.negotiated_conformance,
            server_max_receive_pdu_size: response.server_max_receive_pdu_size,
        },
    )
}

/// The client side of the protocol over a transport.
pub struct Client<T: Transport> {
    address: u16,
    transport: T,
    password: Option<Vec<u8>>,
    key: Option<Vec<u8>>,
    association_parameters: AssociationParameters,
    negotiated_parameters: Option<NegotiatedAssociationParameters>,
}

impl<T: Transport> Client<T> {
    pub closed spec fn params(&self) -> AssociationParameters {
        self.association_parameters
    }

    pub closed spec fn negotiated(&self) -> Option<NegotiatedAssociationParameters> {
        self.negotiated_parameters
    }

    pub fn new(address: u16, transport: T, password: Option<Vec<u8>>, key: Option<Vec<u8>>) -> (r: Self)
        ensures
            r.params().dlms_version == crate::xdlms::DEFAULT_DLMS_VERSION,
            r.params().conformance.value == crate::xdlms::DEFAULT_CONFORMANCE,
            r.params().max_receive_pdu_size == crate::xdlms::DEFAULT_MAX_RECEIVE_PDU_SIZE,
            r.params().quality_of_service is None,
            r.negotiated() is None,
    {
        Client {
            address,
            transport,
            password,
            key,
            association_parameters: crate::xdlms::default_association_parameters(),
            negotiated_parameters: None,
        }
    }

    /// Sets the parameters to propose; any negotiated association is
    /// forgotten.
    pub fn set_association_parameters(&mut self, params: AssociationParameters)
        ensures
            final(self).params() == params,
            final(self).negotiated() is None,
    {
        self.association_parameters = params;
        self.negotiated_parameters = None;
    }

    pub fn association_parameters(&self) -> (r: &AssociationParameters)
        ensures
            *r == self.params(),
    {
        &self.association_parameters
    }

    pub fn negotiated_parameters(&self) -> (r: Option<&NegotiatedAssociationParameters>)
        ensures
            match self.negotiated() {
                Some(n) => r matches Some(x) && *x == n,
                None => r is None,
            },
    {
        match &self.negotiated_parameters {
            Some(n) => Some(n),
            None => None,
        }
    }

    /// Checks the server's InitiateResponse against the client's proposal.
    fn send_and_receive(&mut self, data: &[u8]) -> (r: Result<Vec<u8>, ClientError<T::Error>>)
        ensures
            r matches Err(e) ==> (e is TransportError || e is SecurityError),
            final(self).params() == old(self).params(),
            final(self).negotiated() == old(self).negotiated(),
            final(self).address == old(self).address,
            final(self).password == old(self).password,
    {
        match &self.key {
            Some(key) => {
                let sealed = match hls_encrypt(data, key.as_slice()) {
                    Ok(c) => c,
                    Err(e) => {
                        return Err(ClientError::SecurityError(e));
                    },
                };
                match self.transport.send(sealed.as_slice()) {
                    Ok(()) => {},
                    Err(e) => {
                        return Err(ClientError::TransportError(e));
                    },
                }
                let received = match self.transport.receive() {
                    Ok(b) => b,
                    Err(e) => {
                        return Err(ClientError::TransportError(e));
                    },
                };
                match hls_decrypt(received.as_slice(), key.as_slice()) {
                    Ok(p) => Ok(p),
                    Err(e) => Err(ClientError::SecurityError(e)),
                }
            },
            None => {
                match self.transport.send(data) {
                    Ok(()) => {},
                    Err(e) => {
                        return Err(ClientError::TransportError(e));
                    },
                }
                match self.transport.receive() {
                    Ok(b) => Ok(b),
                    Err(e) => Err(ClientError::TransportError(e)),
                }
            },
        }
    }

    /// Sends `frame` and gives the information of the frame that comes back.
    fn exchange_frame(&mut self, frame: &[u8]) -> (r: Result<Vec<u8>, ClientError<T::Error>>)
        ensures
            r matches Err(e) ==> (e is TransportError || e is SecurityError || e is DlmsError),
            final(self).params() == old(self).params(),
            final(self).negotiated() == old(self).negotiated(),
            final(self).address == old(self).address,
            final(self).password == old(self).password,
    {
        let received = self.send_and_receive(frame)?;
        match HdlcFrame::from_bytes(received.as_slice()) {
            Ok(f) => Ok(f.information),
            Err(e) => Err(ClientError::DlmsError(e)),
        }
    }

    /// Sends the AARQ that `association_request_frame` builds and reads the
    /// AARE with `read_association_reply`. With a password and a challenge
    /// in the AARE, answers the challenge with a second AARQ carrying
    /// `lls_authenticate(password, challenge)`. On success the negotiated
    /// parameters are those the server granted, checked against the
    /// proposal; on failure they are as before.
    pub fn associate(&mut self) -> (r: Result<AareApdu, ClientError<T::Error>>)
        ensures
            final(self).params() == old(self).params(),
            r is Ok ==> (final(self).negotiated() matches Some(n) && exists|resp: InitiateResponse|
                response_acceptable(old(self).params(), resp) && n == negotiated_from(resp)),
            r matches Ok(aare) ==> aare.result == 0,
            r is Err ==> final(self).negotiated() == old(self).negotiated(),
            r matches Err(ClientError::AssociationRejected { result, diagnostic }) ==> result != 0,
            !(r matches Err(ClientError::AssociationNotEstablished)),
    {
        let with_password = self.password.is_some();
        let frame = match association_request_frame(self.address, &self.association_parameters, with_password, None) {
            Ok(b) => b,
            Err(e) => {
                return Err(ClientError::DlmsError(e));
            },
        };
        let information = self.exchange_frame(frame.as_slice())?;
        let (aare, step) = read_association_reply(&self.association_parameters, with_password, information.as_slice())?;
        match step {
            AssociationStep::Associated(negotiated) => {
                self.negotiated_parameters = Some(negotiated);
                Ok(aare)
            },
            AssociationStep::AnswerChallenge(challenge) => {
                let password = match &self.password {
                    Some(p) => copy_bytes(p.as_slice()),
                    None => {
                        return Err(ClientError::AcseError);
                    },
                };
                let response = match lls_authenticate(password.as_slice(), challenge.as_slice()) {
                    Ok(v) => v,
                    Err(e) => {
                        return Err(ClientError::SecurityError(e));
                    },
                };
                let frame = match association_request_frame(
                    self.address,
                    &self.association_parameters,
                    true,
                    Some(response),
                ) {
                    Ok(b) => b,
                    Err(e) => {
                        return Err(ClientError::DlmsError(e));
                    },
                };
                let information = self.exchange_frame(frame.as_slice())?;
                let (aare, step) = read_association_reply(&self.association_parameters, false, information.as_slice())?;
                match step {
                    AssociationStep::Associated(negotiated) => {
                        self.negotiated_parameters = Some(negotiated);
                        Ok(aare)
                    },
                    AssociationStep::AnswerChallenge(_) => Err(ClientError::AcseError),
                }
            },
        }
    }

    /// Sends a Get-Request in the frame that `request_frame` builds and reads
    /// the Get-Response; without an association nothing is sent.
    pub fn send_get_request(&mut self, request: GetRequest) -> (r: Result<GetResponse, ClientError<T::Error>>)
        ensures
            r matches Err(ClientError::AssociationNotEstablished) <==> old(self).negotiated() is None,
            final(self).negotiated() == old(self).negotiated(),
    {
        if self.negotiated_parameters.is_none() {
            return Err(ClientError::AssociationNotEstablished);
        }
        let bytes = match request.to_bytes() {
            Ok(b) => b,
            Err(e) => {
                return Err(ClientError::DlmsError(e));
            },
        };
        let frame = match request_frame(self.address, bytes) {
            Ok(f) => f,
            Err(e) => {
                return Err(ClientError::DlmsError(e));
            },
        };
        let information = self.exchange_frame(frame.as_slice())?;
        match GetResponse::from_bytes(information.as_slice()) {
            Ok(r) => Ok(r),
            Err(e) => Err(ClientError::DlmsError(e)),
        }
    }

    /// Sends a Set-Request in the frame that `request_frame` builds and reads
    /// the Set-Response; without an association nothing is sent.
    pub fn send_set_request(&mut self, request: SetRequest) -> (r: Result<SetResponse, ClientError<T::Error>>)
        ensures
            r matches Err(ClientError::AssociationNotEstablished) <==> old(self).negotiated() is None,
            final(self).negotiated() == old(self).negotiated(),
    {
        if self.negotiated_parameters.is_none() {
            return Err(ClientError::AssociationNotEstablished);
        }
        let bytes = match request.to_bytes() {
            Ok(b) => b,
            Err(e) => {
                return Err(ClientError::DlmsError(e));
            },
        };
        let frame = match request_frame(self.address, bytes) {
            Ok(f) => f,
            Err(e) => {
                return Err(ClientError::DlmsError(e));
            },
        };
        let information = self.exchange_frame(frame.as_slice())?;
        match SetResponse::from_bytes(information.as_slice()) {
            Ok(r) => Ok(r),
            Err(e) => Err(ClientError::DlmsError(e)),
        }
    }

    /// Sends an Action-Request in the frame that `request_frame` builds and
    /// reads the Action-Response; without an association nothing is sent.
    pub fn send_action_request(&mut self, request: ActionRequest) -> (r: Result<ActionResponse, ClientError<T::Error>>)
        ensures
            r matches Err(ClientError::AssociationNotEstablished) <==> old(self).negotiated() is None,
            final(self).negotiated() == old(self).negotiated(),
    {
        if self.negotiated_parameters.is_none() {
            return Err(ClientError::AssociationNotEstablished);
        }
        let bytes = match request.to_bytes() {
            Ok(b) => b,
            Err(e) => {
                return Err(ClientError::DlmsError(e));
            },
        };
        let frame = match request_frame(self.address, bytes) {
            Ok(f) => f,
            Err(e) => {
                return Err(ClientError::DlmsError(e));
            },
        };
        let information = self.exchange_frame(frame.as_slice())?;
        match ActionResponse::from_bytes(information.as_slice()) {
            Ok(r) => Ok(r),
            Err(e) => Err(ClientError::DlmsError(e)),
        }
    }

    /// Sends the RLRQ that `release_request_frame` builds and reads the RLRE
    /// with `read_release_reply`. On success the association is forgotten.
    pub fn release(&mut self) -> (r: Result<(), ClientError<T::Error>>)
        ensures
            r matches Err(ClientError::AssociationNotEstablished) <==> old(self).negotiated() is None,
            r is Ok ==> final(self).negotiated() is None,
            r is Err ==> final(self).negotiated() == old(self).negotiated(),
            r matches Err(ClientError::ReleaseRejected(reason)) ==> reason != 0,
    {
        if self.negotiated_parameters.is_none() {
            return Err(ClientError::AssociationNotEstablished);
        }
        let frame = match release_request_frame(self.address) {
            Ok(f) => f,
            Err(e) => {
                return Err(ClientError::DlmsError(e));
            },
        };
        let information = self.exchange_frame(frame.as_slice())?;
        read_release_reply(information.as_slice())?;
        self.negotiated_parameters = None;
        Ok(())
    }
}

} // verus!

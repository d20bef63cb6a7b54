use vstd::prelude::*;

use crate::axdr::append_bytes;
use crate::error::DlmsError;
use crate::length::{encode_length, MAX_ENCODED_LENGTH};
use crate::wire::{counted_bytes, lemma_counted, parse_counted, read_counted};

verus! {

pub const TAG_AARQ: u8 = 0x60;
pub const TAG_AARE: u8 = 0x61;
pub const TAG_RLRQ: u8 = 0x62;
pub const TAG_RLRE: u8 = 0x63;
pub const TAG_APPLICATION_CONTEXT_NAME: u8 = 0xA1;
pub const TAG_RESULT: u8 = 0xA2;
pub const TAG_RESULT_SOURCE_DIAGNOSTIC: u8 = 0xA3;
pub const TAG_SENDER_ACSE_REQUIREMENTS: u8 = 0x8A;
pub const TAG_MECHANISM_NAME: u8 = 0x8B;
pub const TAG_AUTHENTICATION_VALUE: u8 = 0xAC;
pub const TAG_USER_INFORMATION: u8 = 0xBE;
pub const TAG_REASON: u8 = 0x80;

/// A tag, a definite length and the value.
pub open spec fn tlv_bytes(tag: u8, v: Seq<u8>) -> Seq<u8> {
    seq![tag] + counted_bytes(v)
}

pub open spec fn opt_tlv_bytes(tag: u8, v: Option<Seq<u8>>) -> Seq<u8> {
    match v {
        Some(x) => tlv_bytes(tag, x),
        None => Seq::empty(),
    }
}

pub open spec fn opt_fits(v: Option<Seq<u8>>) -> bool {
    match v {
        Some(x) => x.len() <= MAX_ENCODED_LENGTH,
        None => true,
    }
}

/// The element with `tag` at `i`: its value and the index after it.
pub open spec fn parse_tlv(s: Seq<u8>, i: int, tag: u8) -> Option<(Seq<u8>, int)> {
    if 0 <= i < s.len() && s[i] == tag {
        parse_counted(s, i + 1)
    } else {
        None
    }
}

/// An optional element: absent when the next tag is another one (or the
/// input ends).
pub open spec fn parse_opt_tlv(s: Seq<u8>, i: int, tag: u8) -> Option<(Option<Seq<u8>>, int)> {
    if 0 <= i < s.len() && s[i] == tag {
        match parse_counted(s, i + 1) {
            Some((v, j)) => Some((Some(v), j)),
            None => None,
        }
    } else if 0 <= i <= s.len() {
        Some((None, i))
    } else {
        None
    }
}

fn push_tlv(buf: &mut Vec<u8>, tag: u8, v: &[u8])
    requires
        v@.len() <= MAX_ENCODED_LENGTH,
    ensures
        final(buf)@ == old(buf)@ + tlv_bytes(tag, v@),
{
    buf.push(tag);
    encode_length(buf, v.len());
    append_bytes(buf, v);
    assert(final(buf)@ =~= old(buf)@ + tlv_bytes(tag, v@));
}

fn push_opt_tlv(buf: &mut Vec<u8>, tag: u8, v: &Option<Vec<u8>>)
    requires
        opt_fits(
            match v {
                Some(x) => Some(x@),
                None => None,
            },
        ),
    ensures
        final(buf)@ == old(buf)@ + opt_tlv_bytes(
            tag,
            match v {
                Some(x) => Some(x@),
                None => None,
            },
        ),
{
    match v {
        Some(x) => push_tlv(buf, tag, x.as_slice()),
        None => {
            assert(final(buf)@ =~= old(buf)@ + Seq::<u8>::empty());
        },
    }
}

fn read_tlv(s: &[u8], i: usize, tag: u8) -> (r: Option<(Vec<u8>, usize)>)
    ensures
        match parse_tlv(s@, i as int, tag) {
            Some((v, j)) => r matches Some((w, jj)) && w@ == v && jj == j,
            None => r is None,
        },
{
    if i < s.len() && s[i] == tag {
        read_counted(s, i + 1)
    } else {
        None
    }
}

fn read_opt_tlv(s: &[u8], i: usize, tag: u8) -> (r: Option<(Option<Vec<u8>>, usize)>)
    requires
        i <= s@.len(),
    ensures
        match parse_opt_tlv(s@, i as int, tag) {
            Some((v, j)) => r matches Some((w, jj)) && jj == j && v == match w {
                Some(x) => Some(x@),
                None => None::<Seq<u8>>,
            },
            None => r is None,
        },
{
    if i < s.len() && s[i] == tag {
        match read_counted(s, i + 1) {
            Some((v, j)) => Some((Some(v), j)),
            None => None,
        }
    } else {
        Some((None, i))
    }
}

proof fn lemma_tlv(s: Seq<u8>, i: int, tag: u8, v: Seq<u8>)
    requires
        0 <= i,
        v.len() <= MAX_ENCODED_LENGTH,
        i + tlv_bytes(tag, v).len() <= s.len(),
        s.subrange(i, i + tlv_bytes(tag, v).len()) == tlv_bytes(tag, v),
    ensures
        parse_tlv(s, i, tag) == Some((v, i + tlv_bytes(tag, v).len())),
        parse_opt_tlv(s, i, tag) == Some((Some(v), i + tlv_bytes(tag, v).len())),
{
    let t = tlv_bytes(tag, v);
    assert(s[i] == t[0]);
    assert(s.subrange(i + 1, i + t.len()) =~= counted_bytes(v)) by {
        assert(s.subrange(i + 1, i + t.len()) =~= s.subrange(i, i + t.len()).subrange(
            1,
            t.len() as int,
        ));
    }
    lemma_counted(s, i + 1, v);
}

proof fn lemma_opt_tlv(s: Seq<u8>, i: int, tag: u8, v: Option<Seq<u8>>)
    requires
        0 <= i,
        opt_fits(v),
        i + opt_tlv_bytes(tag, v).len() <= s.len(),
        s.subrange(i, i + opt_tlv_bytes(tag, v).len()) == opt_tlv_bytes(tag, v),
        v is None ==> (i == s.len() || s[i] != tag),
    ensures
        parse_opt_tlv(s, i, tag) == Some((v, i + opt_tlv_bytes(tag, v).len())),
{
    match v {
        Some(x) => lemma_tlv(s, i, tag, x),
        None => {},
    }
}

/// The outer frame of an ACSE PDU: its tag, the definite length of the
/// content, and the content.
pub open spec fn frame_bytes(tag: u8, content: Seq<u8>) -> Seq<u8> {
    tlv_bytes(tag, content)
}

// --- AARQ ---
#[derive(Debug, Clone, PartialEq, Eq)]
pub struct AarqApdu {
    pub application_context_name: Vec<u8>,
    pub sender_acse_requirements: u8,
    pub mechanism_name: Option<Vec<u8>>,
    pub calling_authentication_value: Option<Vec<u8>>,
    pub user_information: Vec<u8>,
}

pub struct AarqModel {
    pub application_context_name: Seq<u8>,
    pub sender_acse_requirements: u8,
    pub mechanism_name: Option<Seq<u8>>,
    pub calling_authentication_value: Option<Seq<u8>>,
    pub user_information: Seq<u8>,
}

pub open spec fn opt_view(v: Option<Vec<u8>>) -> Option<Seq<u8>> {
    match v {
        Some(x) => Some(x@),
        None => None,
    }
}

impl View for AarqApdu {
    type V = AarqModel;

    open spec fn view(&self) -> AarqModel {
        AarqModel {
            application_context_name: self.application_context_name@,
            sender_acse_requirements: self.sender_acse_requirements,
            mechanism_name: opt_view(self.mechanism_name),
            calling_authentication_value: opt_view(self.calling_authentication_value),
            user_information: self.user_information@,
        }
    }
}

pub open spec fn aarq_content(m: AarqModel) -> Seq<u8> {
    tlv_bytes(TAG_APPLICATION_CONTEXT_NAME, m.application_context_name) + tlv_bytes(
        TAG_SENDER_ACSE_REQUIREMENTS,
        seq![m.sender_acse_requirements],
    ) + opt_tlv_bytes(TAG_MECHANISM_NAME, m.mechanism_name) + opt_tlv_bytes(
        TAG_AUTHENTICATION_VALUE,
        m.calling_authentication_value,
    ) + tlv_bytes(TAG_USER_INFORMATION, m.user_information)
}

/// Every field, and the content as a whole, fits four length octets.
pub open spec fn aarq_fits(m: AarqModel) -> bool {
    &&& m.application_context_name.len() <= MAX_ENCODED_LENGTH
    &&& opt_fits(m.mechanism_name)
    &&& opt_fits(m.calling_authentication_value)
    &&& m.user_information.len() <= MAX_ENCODED_LENGTH
    &&& aarq_content(m).len() <= MAX_ENCODED_LENGTH
}

/// The AARQ PDU.
pub open spec fn aarq_bytes(m: AarqModel) -> Seq<u8> {
    frame_bytes(TAG_AARQ, aarq_content(m))
}

/// What the content of an AARQ says; what follows user-information is not
/// looked at.
pub open spec fn parse_aarq_content(c: Seq<u8>) -> Option<AarqModel> {
    match parse_tlv(c, 0, TAG_APPLICATION_CONTEXT_NAME) {
        None => None,
        Some((acn, i1)) => match parse_tlv(c, i1, TAG_SENDER_ACSE_REQUIREMENTS) {
            None => None,
            Some((sar, i2)) => if sar.len() == 0 {
                None
            } else {
                match parse_opt_tlv(c, i2, TAG_MECHANISM_NAME) {
                    None => None,
                    Some((mn, i3)) => match parse_opt_tlv(c, i3, TAG_AUTHENTICATION_VALUE) {
                        None => None,
                        Some((cav, i4)) => match parse_tlv(c, i4, TAG_USER_INFORMATION) {
                            None => None,
                            Some((ui, _)) => Some(
                                AarqModel {
                                    application_context_name: acn,
                                    sender_acse_requirements: sar[0],
                                    mechanism_name: mn,
                                    calling_authentication_value: cav,
                                    user_information: ui,
                                },
                            ),
                        },
                    },
                }
            },
        },
    }
}

/// The content of the PDU with `tag` at the front of `s`, and the number of
/// octets the PDU takes.
pub open spec fn parse_frame(s: Seq<u8>, tag: u8) -> Option<(Seq<u8>, int)> {
    parse_tlv(s, 0, tag)
}

/// What an AARQ at the front of `s` says, and the octets it takes.
pub open spec fn parse_aarq(s: Seq<u8>) -> Option<(AarqModel, int)> {
    match parse_frame(s, TAG_AARQ) {
        Some((c, n)) => match parse_aarq_content(c) {
            Some(m) => Some((m, n)),
            None => None,
        },
        None => None,
    }
}

fn read_frame(s: &[u8], tag: u8) -> (r: Option<(Vec<u8>, usize)>)
    ensures
        match parse_frame(s@, tag) {
            Some((c, n)) => r matches Some((w, nn)) && w@ == c && nn == n,
            None => r is None,
        },
{
    read_tlv(s, 0, tag)
}

impl AarqApdu {
    /// The AARQ PDU; an error only where a field exceeds four length octets.
    pub fn to_bytes(&self) -> (r: Result<Vec<u8>, DlmsError>)
        ensures
            aarq_fits(self@) ==> (r matches Ok(v) && v@ == aarq_bytes(self@)),
            !aarq_fits(self@) ==> r == Err::<Vec<u8>, DlmsError>(DlmsError::Acse),
    {
        if self.application_context_name.len() > MAX_ENCODED_LENGTH
            || self.user_information.len() > MAX_ENCODED_LENGTH {
            return Err(DlmsError::Acse);
        }
        if let Some(v) = &self.mechanism_name {
            if v.len() > MAX_ENCODED_LENGTH {
                return Err(DlmsError::Acse);
            }
        }
        if let Some(v) = &self.calling_authentication_value {
            if v.len() > MAX_ENCODED_LENGTH {
                return Err(DlmsError::Acse);
            }
        }
        let mut content: Vec<u8> = Vec::new();
        push_tlv(&mut content, TAG_APPLICATION_CONTEXT_NAME, self.application_context_name.as_slice());
        let sar = [self.sender_acse_requirements];
        push_tlv(&mut content, TAG_SENDER_ACSE_REQUIREMENTS, sar.as_slice());
        assert(sar@ =~= seq![self.sender_acse_requirements]);
        push_opt_tlv(&mut content, TAG_MECHANISM_NAME, &self.mechanism_name);
        push_opt_tlv(&mut content, TAG_AUTHENTICATION_VALUE, &self.calling_authentication_value);
        push_tlv(&mut content, TAG_USER_INFORMATION, self.user_information.as_slice());
        assert(content@ =~= aarq_content(self@));
        if content.len() > MAX_ENCODED_LENGTH {
            return Err(DlmsError::Acse);
        }
        let mut bytes: Vec<u8> = Vec::new();
        push_tlv(&mut bytes, TAG_AARQ, content.as_slice());
        assert(bytes@ =~= aarq_bytes(self@));
        Ok(bytes)
    }

    /// Reads an AARQ at the front of `bytes`; returns the bytes after it and
    /// the PDU.
    pub fn from_bytes(bytes: &[u8]) -> (r: Result<(&[u8], Self), DlmsError>)
        ensures
            match parse_aarq(bytes@) {
                Some((m, n)) => r matches Ok((rest, v)) && v@ == m && rest@ == bytes@.subrange(
                    n,
                    bytes@.len() as int,
                ),
                None => r == Err::<(&[u8], AarqApdu), DlmsError>(DlmsError::Acse),
            },
    {
        let (content, n) = match read_frame(bytes, TAG_AARQ) {
            Some(p) => p,
            None => {
                return Err(DlmsError::Acse);
            },
        };
        let c = content.as_slice();
        let (acn, i1) = match read_tlv(c, 0, TAG_APPLICATION_CONTEXT_NAME) {
            Some(p) => p,
            None => {
                return Err(DlmsError::Acse);
            },
        };
        let (sar, i2) = match read_tlv(c, i1, TAG_SENDER_ACSE_REQUIREMENTS) {
            Some(p) => p,
            None => {
                return Err(DlmsError::Acse);
            },
        };
        if sar.len() == 0 {
            return Err(DlmsError::Acse);
        }
        let (mn, i3) = match read_opt_tlv(c, i2, TAG_MECHANISM_NAME) {
            Some(p) => p,
            None => {
                return Err(DlmsError::Acse);
            },
        };
        let (cav, i4) = match read_opt_tlv(c, i3, TAG_AUTHENTICATION_VALUE) {
            Some(p) => p,
            None => {
                return Err(DlmsError::Acse);
            },
        };
        let (ui, _) = match read_tlv(c, i4, TAG_USER_INFORMATION) {
            Some(p) => p,
            None => {
                return Err(DlmsError::Acse);
            },
        };
        let rest = vstd::slice::slice_subrange(bytes, n, bytes.len());
        Ok(
            (
                rest,
                AarqApdu {
                    application_context_name: acn,
                    sender_acse_requirements: sar[0],
                    mechanism_name: mn,
                    calling_authentication_value: cav,
                    user_information: ui,
                },
            ),
        )
    }
}

proof fn lemma_frame(tag: u8, content: Seq<u8>)
    requires
        content.len() <= MAX_ENCODED_LENGTH,
    ensures
        parse_frame(frame_bytes(tag, content), tag) == Some(
            (content, frame_bytes(tag, content).len() as int),
        ),
{
    let s = frame_bytes(tag, content);
    assert(s.subrange(0, s.len() as int) =~= s);
    lemma_tlv(s, 0, tag, content);
}

/// Every AARQ whose fields fit reads back as itself, long optional fields
/// included.
pub proof fn law_aarq_round_trip(m: AarqModel)
    requires
        aarq_fits(m),
    ensures
        parse_aarq(aarq_bytes(m)) == Some((m, aarq_bytes(m).len() as int)),
{
    let c = aarq_content(m);
    lemma_frame(TAG_AARQ, c);
    let a = tlv_bytes(TAG_APPLICATION_CONTEXT_NAME, m.application_context_name);
    let b = tlv_bytes(TAG_SENDER_ACSE_REQUIREMENTS, seq![m.sender_acse_requirements]);
    let mn = opt_tlv_bytes(TAG_MECHANISM_NAME, m.mechanism_name);
    let cv = opt_tlv_bytes(TAG_AUTHENTICATION_VALUE, m.calling_authentication_value);
    let u = tlv_bytes(TAG_USER_INFORMATION, m.user_information);
    let i1 = a.len() as int;
    let i2 = i1 + b.len();
    let i3 = i2 + mn.len();
    let i4 = i3 + cv.len();
    assert(c =~= a + b + mn + cv + u);
    assert(c.subrange(0, i1) =~= a);
    lemma_tlv(c, 0, TAG_APPLICATION_CONTEXT_NAME, m.application_context_name);
    assert(c.subrange(i1, i2) =~= b);
    lemma_tlv(c, i1, TAG_SENDER_ACSE_REQUIREMENTS, seq![m.sender_acse_requirements]);
    assert(c.subrange(i2, i3) =~= mn);
    assert(c[i3] == (cv + u)[0]);
    assert(c.subrange(i3, i4) =~= cv);
    assert(c[i4] == u[0]);
    if m.mechanism_name is None {
        assert(c[i2] == (cv + u)[0]);
    }
    lemma_opt_tlv(c, i2, TAG_MECHANISM_NAME, m.mechanism_name);
    lemma_opt_tlv(c, i3, TAG_AUTHENTICATION_VALUE, m.calling_authentication_value);
    assert(c.subrange(i4, i4 + u.len()) =~= u);
    lemma_tlv(c, i4, TAG_USER_INFORMATION, m.user_information);
}

// --- AARE ---
#[derive(Debug, Clone, PartialEq, Eq)]
pub struct AareApdu {
    pub application_context_name: Vec<u8>,
    pub result: u8,
    pub result_source_diagnostic: u8,
    pub responding_authentication_value: Option<Vec<u8>>,
    pub user_information: Vec<u8>,
}

pub struct AareModel {
    pub application_context_name: Seq<u8>,
    pub result: u8,
    pub result_source_diagnostic: u8,
    pub responding_authentication_value: Option<Seq<u8>>,
    pub user_information: Seq<u8>,
}

impl View for AareApdu {
    type V = AareModel;

    open spec fn view(&self) -> AareModel {
        AareModel {
            application_context_name: self.application_context_name@,
            result: self.result,
            result_source_diagnostic: self.result_source_diagnostic,
            responding_authentication_value: opt_view(self.responding_authentication_value),
            user_information: self.user_information@,
        }
    }
}

pub open spec fn aare_content(m: AareModel) -> Seq<u8> {
    tlv_bytes(TAG_APPLICATION_CONTEXT_NAME, m.application_context_name) + tlv_bytes(
        TAG_RESULT,
        seq![m.result],
    ) + tlv_bytes(TAG_RESULT_SOURCE_DIAGNOSTIC, seq![m.result_source_diagnostic])
        + opt_tlv_bytes(TAG_AUTHENTICATION_VALUE, m.responding_authentication_value) + tlv_bytes(
        TAG_USER_INFORMATION,
        m.user_information,
    )
}

pub open spec fn aare_fits(m: AareModel) -> bool {
    &&& m.application_context_name.len() <= MAX_ENCODED_LENGTH
    &&& opt_fits(m.responding_authentication_value)
    &&& m.user_information.len() <= MAX_ENCODED_LENGTH
    &&& aare_content(m).len() <= MAX_ENCODED_LENGTH
}

/// The AARE PDU.
pub open spec fn aare_bytes(m: AareModel) -> Seq<u8> {
    frame_bytes(TAG_AARE, aare_content(m))
}

pub open spec fn parse_aare_content(c: Seq<u8>) -> Option<AareModel> {
    match parse_tlv(c, 0, TAG_APPLICATION_CONTEXT_NAME) {
        None => None,
        Some((acn, i1)) => match parse_tlv(c, i1, TAG_RESULT) {
            None => None,
            Some((res, i2)) => match parse_tlv(c, i2, TAG_RESULT_SOURCE_DIAGNOSTIC) {
                None => None,
                Some((diag, i3)) => if res.len() == 0 || diag.len() == 0 {
                    None
                } else {
                    match parse_opt_tlv(c, i3, TAG_AUTHENTICATION_VALUE) {
                        None => None,
                        Some((rav, i4)) => match parse_tlv(c, i4, TAG_USER_INFORMATION) {
                            None => None,
                            Some((ui, _)) => Some(
                                AareModel {
                                    application_context_name: acn,
                                    result: res[0],
                                    result_source_diagnostic: diag[0],
                                    responding_authentication_value: rav,
                                    user_information: ui,
                                },
                            ),
                        },
                    }
                },
            },
        },
    }
}

/// What an AARE at the front of `s` says, and the octets it takes.
pub open spec fn parse_aare(s: Seq<u8>) -> Option<(AareModel, int)> {
    match parse_frame(s, TAG_AARE) {
        Some((c, n)) => match parse_aare_content(c) {
            Some(m) => Some((m, n)),
            None => None,
        },
        None => None,
    }
}

impl AareApdu {
    /// The AARE PDU; an error only where a field exceeds four length octets.
    pub fn to_bytes(&self) -> (r: Result<Vec<u8>, DlmsError>)
        ensures
            aare_fits(self@) ==> (r matches Ok(v) && v@ == aare_bytes(self@)),
            !aare_fits(self@) ==> r == Err::<Vec<u8>, DlmsError>(DlmsError::Acse),
    {
        if self.application_context_name.len() > MAX_ENCODED_LENGTH
            || self.user_information.len() > MAX_ENCODED_LENGTH {
            return Err(DlmsError::Acse);
        }
        if let Some(v) = &self.responding_authentication_value {
            if v.len() > MAX_ENCODED_LENGTH {
                return Err(DlmsError::Acse);
            }
        }
        let mut content: Vec<u8> = Vec::new();
        push_tlv(&mut content, TAG_APPLICATION_CONTEXT_NAME, self.application_context_name.as_slice());
        let res = [self.result];
        assert(res@ =~= seq![self.result]);
        push_tlv(&mut content, TAG_RESULT, res.as_slice());
        let diag = [self.result_source_diagnostic];
        assert(diag@ =~= seq![self.result_source_diagnostic]);
        push_tlv(&mut content, TAG_RESULT_SOURCE_DIAGNOSTIC, diag.as_slice());
        push_opt_tlv(&mut content, TAG_AUTHENTICATION_VALUE, &self.responding_authentication_value);
        push_tlv(&mut content, TAG_USER_INFORMATION, self.user_information.as_slice());
        assert(content@ =~= aare_content(self@));
        if content.len() > MAX_ENCODED_LENGTH {
            return Err(DlmsError::Acse);
        }
        let mut bytes: Vec<u8> = Vec::new();
        push_tlv(&mut bytes, TAG_AARE, content.as_slice());
        Ok(bytes)
    }

    /// Reads an AARE at the front of `bytes`; returns the bytes after it and
    /// the PDU.
    pub fn from_bytes(bytes: &[u8]) -> (r: Result<(&[u8], Self), DlmsError>)
        ensures
            match parse_aare(bytes@) {
                Some((m, n)) => r matches Ok((rest, v)) && v@ == m && rest@ == bytes@.subrange(
                    n,
                    bytes@.len() as int,
                ),
                None => r == Err::<(&[u8], AareApdu), DlmsError>(DlmsError::Acse),
            },
    {
        let (content, n) = match read_frame(bytes, TAG_AARE) {
            Some(p) => p,
            None => {
                return Err(DlmsError::Acse);
            },
        };
        let c = content.as_slice();
        let (acn, i1) = match read_tlv(c, 0, TAG_APPLICATION_CONTEXT_NAME) {
            Some(p) => p,
            None => {
                return Err(DlmsError::Acse);
            },
        };
        let (res, i2) = match read_tlv(c, i1, TAG_RESULT) {
            Some(p) => p,
            None => {
                return Err(DlmsError::Acse);
            },
        };
        let (diag, i3) = match read_tlv(c, i2, TAG_RESULT_SOURCE_DIAGNOSTIC) {
            Some(p) => p,
            None => {
                return Err(DlmsError::Acse);
            },
        };
        if res.len() == 0 || diag.len() == 0 {
            return Err(DlmsError::Acse);
        }
        let (rav, i4) = match read_opt_tlv(c, i3, TAG_AUTHENTICATION_VALUE) {
            Some(p) => p,
            None => {
                return Err(DlmsError::Acse);
            },
        };
        let (ui, _) = match read_tlv(c, i4, TAG_USER_INFORMATION) {
            Some(p) => p,
            None => {
                return Err(DlmsError::Acse);
            },
        };
        let rest = vstd::slice::slice_subrange(bytes, n, bytes.len());
        Ok(
            (
                rest,
                AareApdu {
                    application_context_name: acn,
                    result: res[0],
                    result_source_diagnostic: diag[0],
                    responding_authentication_value: rav,
                    user_information: ui,
                },
            ),
        )
    }
}

/// Every AARE whose fields fit reads back as itself, a long authentication
/// value included.
#[verifier::rlimit(100)]
pub proof fn law_aare_round_trip(m: AareModel)
    requires
        aare_fits(m),
    ensures
        parse_aare(aare_bytes(m)) == Some((m, aare_bytes(m).len() as int)),
{
    let c = aare_content(m);
    lemma_frame(TAG_AARE, c);
    let a = tlv_bytes(TAG_APPLICATION_CONTEXT_NAME, m.application_context_name);
    let b = tlv_bytes(TAG_RESULT, seq![m.result]);
    let d = tlv_bytes(TAG_RESULT_SOURCE_DIAGNOSTIC, seq![m.result_source_diagnostic]);
    let rv = opt_tlv_bytes(TAG_AUTHENTICATION_VALUE, m.responding_authentication_value);
    let u = tlv_bytes(TAG_USER_INFORMATION, m.user_information);
    let i1 = a.len() as int;
    let i2 = i1 + b.len();
    let i3 = i2 + d.len();
    let i4 = i3 + rv.len();
    assert(c =~= a + b + d + rv + u);
    assert(c.subrange(0, i1) =~= a);
    lemma_tlv(c, 0, TAG_APPLICATION_CONTEXT_NAME, m.application_context_name);
    assert(c.subrange(i1, i2) =~= b);
    lemma_tlv(c, i1, TAG_RESULT, seq![m.result]);
    assert(c.subrange(i2, i3) =~= d);
    lemma_tlv(c, i2, TAG_RESULT_SOURCE_DIAGNOSTIC, seq![m.result_source_diagnostic]);
    assert(c.subrange(i3, i4) =~= rv);
    assert(c[i4] == u[0]);
    if m.responding_authentication_value is None {
        assert(c[i3] == u[0]);
    }
    lemma_opt_tlv(c, i3, TAG_AUTHENTICATION_VALUE, m.responding_authentication_value);
    assert(c.subrange(i4, i4 + u.len()) =~= u);
    lemma_tlv(c, i4, TAG_USER_INFORMATION, m.user_information);
}

// --- RLRQ / RLRE ---
/// What a release request or response says.
pub struct ReleaseModel {
    pub reason: Option<u8>,
    pub user_information: Option<Seq<u8>>,
}

pub open spec fn release_content(m: ReleaseModel) -> Seq<u8> {
    opt_tlv_bytes(
        TAG_REASON,
        match m.reason {
            Some(r) => Some(seq![r]),
            None => None,
        },
    ) + opt_tlv_bytes(TAG_USER_INFORMATION, m.user_information)
}

pub open spec fn release_fits(m: ReleaseModel) -> bool {
    &&& opt_fits(m.user_information)
    &&& release_content(m).len() <= MAX_ENCODED_LENGTH
}

/// The content of a release PDU: an optional one-octet reason, then optional
/// user-information; a reason of another length is an error.
pub open spec fn parse_release_content(c: Seq<u8>) -> Option<ReleaseModel> {
    match parse_opt_tlv(c, 0, TAG_REASON) {
        None => None,
        Some((reason, i1)) => match parse_opt_tlv(c, i1, TAG_USER_INFORMATION) {
            None => None,
            Some((ui, _)) => match reason {
                Some(r) => if r.len() != 1 {
                    None
                } else {
                    Some(ReleaseModel { reason: Some(r[0]), user_information: ui })
                },
                None => Some(ReleaseModel { reason: None, user_information: ui }),
            },
        },
    }
}

pub open spec fn parse_release(s: Seq<u8>, tag: u8) -> Option<(ReleaseModel, int)> {
    match parse_frame(s, tag) {
        Some((c, n)) => match parse_release_content(c) {
            Some(m) => Some((m, n)),
            None => None,
        },
        None => None,
    }
}

fn release_to_bytes(tag: u8, reason: Option<u8>, user_information: &Option<Vec<u8>>) -> (r:
    Result<Vec<u8>, DlmsError>)
    ensures
        ({
            let m = ReleaseModel { reason, user_information: opt_view(*user_information) };
            &&& release_fits(m) ==> (r matches Ok(v) && v@ == frame_bytes(tag, release_content(m)))
            &&& !release_fits(m) ==> r == Err::<Vec<u8>, DlmsError>(DlmsError::Acse)
        }),
{
    if let Some(v) = user_information {
        if v.len() > MAX_ENCODED_LENGTH {
            return Err(DlmsError::Acse);
        }
    }
    let mut content: Vec<u8> = Vec::new();
    match reason {
        Some(x) => {
            let b = [x];
            assert(b@ =~= seq![x]);
            push_tlv(&mut content, TAG_REASON, b.as_slice());
        },
        None => {},
    }
    push_opt_tlv(&mut content, TAG_USER_INFORMATION, user_information);
    let ghost m = ReleaseModel { reason, user_information: opt_view(*user_information) };
    assert(content@ =~= release_content(m));
    if content.len() > MAX_ENCODED_LENGTH {
        return Err(DlmsError::Acse);
    }
    let mut bytes: Vec<u8> = Vec::new();
    push_tlv(&mut bytes, tag, content.as_slice());
    Ok(bytes)
}

fn release_from_bytes(bytes: &[u8], tag: u8) -> (r: Result<(usize, Option<u8>, Option<Vec<u8>>), DlmsError>)
    ensures
        match parse_release(bytes@, tag) {
            Some((m, n)) => r matches Ok((nn, reason, ui)) && nn == n && reason == m.reason
                && opt_view(ui) == m.user_information,
            None => r == Err::<(usize, Option<u8>, Option<Vec<u8>>), DlmsError>(DlmsError::Acse),
        },
{
    let (content, n) = match read_frame(bytes, tag) {
        Some(p) => p,
        None => {
            return Err(DlmsError::Acse);
        },
    };
    let c = content.as_slice();
    let (reason, i1) = match read_opt_tlv(c, 0, TAG_REASON) {
        Some(p) => p,
        None => {
            return Err(DlmsError::Acse);
        },
    };
    let (ui, _) = match read_opt_tlv(c, i1, TAG_USER_INFORMATION) {
        Some(p) => p,
        None => {
            return Err(DlmsError::Acse);
        },
    };
    let reason = match reason {
        Some(r) => {
            if r.len() != 1 {
                return Err(DlmsError::Acse);
            }
            Some(r[0])
        },
        None => None,
    };
    Ok((n, reason, ui))
}

/// Every release PDU whose fields fit reads back as itself.
pub proof fn law_release_round_trip(tag: u8, m: ReleaseModel)
    requires
        release_fits(m),
    ensures
        parse_release(frame_bytes(tag, release_content(m)), tag) == Some(
            (m, frame_bytes(tag, release_content(m)).len() as int),
        ),
{
    let c = release_content(m);
    lemma_frame(tag, c);
    let rs = match m.reason {
        Some(r) => Some(seq![r]),
        None => None,
    };
    let a = opt_tlv_bytes(TAG_REASON, rs);
    let u = opt_tlv_bytes(TAG_USER_INFORMATION, m.user_information);
    let i1 = a.len() as int;
    assert(c =~= a + u);
    assert(c.subrange(0, i1) =~= a);
    if m.reason is None && m.user_information is Some {
        assert(c[0] == u[0]);
    }
    lemma_opt_tlv(c, 0, TAG_REASON, rs);
    assert(c.subrange(i1, i1 + u.len()) =~= u);
    lemma_opt_tlv(c, i1, TAG_USER_INFORMATION, m.user_information);
}

#[derive(Debug, Clone, PartialEq, Eq)]
pub struct ArlrqApdu {
    pub reason: Option<u8>,
    pub user_information: Option<Vec<u8>>,
}

impl View for ArlrqApdu {
    type V = ReleaseModel;

    open spec fn view(&self) -> ReleaseModel {
        ReleaseModel { reason: self.reason, user_information: opt_view(self.user_information) }
    }
}

impl ArlrqApdu {
    /// The RLRQ PDU; an error only where a field exceeds four length octets.
    pub fn to_bytes(&self) -> (r: Result<Vec<u8>, DlmsError>)
        ensures
            release_fits(self@) ==> (r matches Ok(v) && v@ == frame_bytes(
                TAG_RLRQ,
                release_content(self@),
            )),
            !release_fits(self@) ==> r == Err::<Vec<u8>, DlmsError>(DlmsError::Acse),
    {
        release_to_bytes(TAG_RLRQ, self.reason, &self.user_information)
    }

    /// Reads an RLRQ at the front of `bytes`; returns the bytes after it and
    /// the PDU.
    pub fn from_bytes(bytes: &[u8]) -> (r: Result<(&[u8], Self), DlmsError>)
        ensures
            match parse_release(bytes@, TAG_RLRQ) {
                Some((m, n)) => r matches Ok((rest, v)) && v@ == m && rest@ == bytes@.subrange(
                    n,
                    bytes@.len() as int,
                ),
                None => r == Err::<(&[u8], ArlrqApdu), DlmsError>(DlmsError::Acse),
            },
    {
        let (n, reason, user_information) = release_from_bytes(bytes, TAG_RLRQ)?;
        let rest = vstd::slice::slice_subrange(bytes, n, bytes.len());
        Ok((rest, ArlrqApdu { reason, user_information }))
    }
}

#[derive(Debug, Clone, PartialEq, Eq)]
pub struct ArlreApdu {
    pub reason: Option<u8>,
    pub user_information: Option<Vec<u8>>,
}

impl View for ArlreApdu {
    type V = ReleaseModel;

    open spec fn view(&self) -> ReleaseModel {
        ReleaseModel { reason: self.reason, user_information: opt_view(self.user_information) }
    }
}

impl ArlreApdu {
    /// The RLRE PDU; an error only where a field exceeds four length octets.
    pub fn to_bytes(&self) -> (r: Result<Vec<u8>, DlmsError>)
        ensures
            release_fits(self@) ==> (r matches Ok(v) && v@ == frame_bytes(
                TAG_RLRE,
                release_content(self@),
            )),
            !release_fits(self@) ==> r == Err::<Vec<u8>, DlmsError>(DlmsError::Acse),
    {
        release_to_bytes(TAG_RLRE, self.reason, &self.user_information)
    }

    /// Reads an RLRE at the front of `bytes`; returns the bytes after it and
    /// the PDU.
    pub fn from_bytes(bytes: &[u8]) -> (r: Result<(&[u8], Self), DlmsError>)
        ensures
            match parse_release(bytes@, TAG_RLRE) {
                Some((m, n)) => r matches Ok((rest, v)) && v@ == m && rest@ == bytes@.subrange(
                    n,
                    bytes@.len() as int,
                ),
                None => r == Err::<(&[u8], ArlreApdu), DlmsError>(DlmsError::Acse),
            },
    {
        let (n, reason, user_information) = release_from_bytes(bytes, TAG_RLRE)?;
        let rest = vstd::slice::slice_subrange(bytes, n, bytes.len());
        Ok((rest, ArlreApdu { reason, user_information }))
    }
}

proof fn lemma_counted_len(s: Seq<u8>, i: int)
    ensures
        parse_counted(s, i) matches Some((v, j)) ==> v.len() <= s.len() && j <= s.len(),
{
}

/// The application context name of a parsed AARQ is no longer than the input.
pub proof fn lemma_aarq_name_len(s: Seq<u8>)
    ensures
        parse_aarq(s) matches Some((m, _)) ==> m.application_context_name.len() <= s.len(),
{
    lemma_counted_len(s, 1);
    match parse_frame(s, TAG_AARQ) {
        Some((c, _)) => {
            lemma_counted_len(c, 1);
        },
        None => {},
    }
}

proof fn lemma_tlv_len(tag: u8, v: Seq<u8>)
    requires
        v.len() <= MAX_ENCODED_LENGTH,
    ensures
        tlv_bytes(tag, v).len() <= v.len() + 6,
{
    crate::length::lemma_length_octets_len(v.len());
}

/// An AARE whose fields are short fits four length octets.
pub proof fn lemma_aare_fits(x: AareModel)
    requires
        x.application_context_name.len() <= 0xFFFF,
        x.user_information.len() <= 0xFFFF,
        x.responding_authentication_value matches Some(v) ==> v.len() <= 0xFFFF,
    ensures
        aare_fits(x),
{
    lemma_tlv_len(TAG_APPLICATION_CONTEXT_NAME, x.application_context_name);
    lemma_tlv_len(TAG_RESULT, seq![x.result]);
    lemma_tlv_len(TAG_RESULT_SOURCE_DIAGNOSTIC, seq![x.result_source_diagnostic]);
    lemma_tlv_len(TAG_USER_INFORMATION, x.user_information);
    match x.responding_authentication_value {
        Some(v) => lemma_tlv_len(TAG_AUTHENTICATION_VALUE, v),
        None => {},
    }
}

/// A release PDU whose user-information is short fits four length octets.
pub proof fn lemma_release_fits(m: ReleaseModel)
    requires
        m.user_information matches Some(v) ==> v.len() <= 0xFFFF,
    ensures
        release_fits(m),
{
    match m.reason {
        Some(r) => lemma_tlv_len(TAG_REASON, seq![r]),
        None => {},
    }
    match m.user_information {
        Some(v) => lemma_tlv_len(TAG_USER_INFORMATION, v),
        None => {},
    }
}

/// The user-information of a parsed RLRQ is no longer than the input.
pub proof fn lemma_release_ui_len(s: Seq<u8>, tag: u8)
    ensures
        parse_release(s, tag) matches Some((m, _)) ==> (m.user_information matches Some(v) ==> v.len() <= s.len()),
{
    lemma_counted_len(s, 1);
    match parse_frame(s, tag) {
        Some((c, _)) => {
            match parse_opt_tlv(c, 0, TAG_REASON) {
                Some((_, i1)) => {
                    lemma_counted_len(c, 1);
                    lemma_counted_len(c, i1 + 1);
                },
                None => {},
            }
        },
        None => {},
    }
}

/// An AARQ whose fields are short fits four length octets.
pub proof fn lemma_aarq_fits(x: AarqModel)
    requires
        x.application_context_name.len() <= 0xFFFF,
        x.user_information.len() <= 0xFFFF,
        x.mechanism_name matches Some(v) ==> v.len() <= 0xFFFF,
        x.calling_authentication_value matches Some(v) ==> v.len() <= 0xFFFF,
    ensures
        aarq_fits(x),
{
    lemma_tlv_len(TAG_APPLICATION_CONTEXT_NAME, x.application_context_name);
    lemma_tlv_len(TAG_SENDER_ACSE_REQUIREMENTS, seq![x.sender_acse_requirements]);
    lemma_tlv_len(TAG_USER_INFORMATION, x.user_information);
    match x.mechanism_name {
        Some(v) => lemma_tlv_len(TAG_MECHANISM_NAME, v),
        None => {},
    }
    match x.calling_authentication_value {
        Some(v) => lemma_tlv_len(TAG_AUTHENTICATION_VALUE, v),
        None => {},
    }
}

} // verus!

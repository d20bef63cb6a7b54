use vstd::prelude::*;

verus! {

/// The errors of the protocol layers.
#[derive(Debug, Clone, Copy, PartialEq, Eq, Structural)]
pub enum DlmsError {
    /// The carrier failed.
    Transport,
    /// An HDLC frame is malformed or its check sequence is wrong.
    Hdlc,
    /// An ACSE PDU cannot be read or written.
    Acse,
    /// An xDLMS PDU or an A-XDR value cannot be read or written.
    Xdlms,
    /// A COSEM object refused an operation.
    Cosem,
    /// A key or a cipher operation failed.
    Security,
    /// A bounded buffer is full.
    VecIsFull,
    /// Input could not be parsed.
    ParseError,
    /// A value of a kind that the A-XDR codec does not write or read.
    Unsupported,
}

} // verus!

//! The core of a DLMS/COSEM stack for metering endpoints: HDLC framing,
//! the A-XDR value codec, xDLMS and ACSE PDUs, association negotiation with
//! LLS challenge and response, the interface object model, and a server
//! that dispatches requests under per-attribute access rights.

pub mod acse;
pub mod activity_calendar;
pub mod association_ln;
pub mod attribute_table;
pub mod axdr;
pub mod client;
pub mod clock;
pub mod cosem;
pub mod cosem_object;
pub mod data;
pub mod demand_register;
pub mod disconnect_control;
pub mod error;
pub mod extended_register;
pub mod hdlc;
pub mod length;
pub mod negotiation;
pub mod pdu;
pub mod profile_generic;
pub mod register;
pub mod sap_assignment;
pub mod security;
pub mod security_setup;
pub mod server;
pub mod transport;
pub mod types;
pub mod wire;
pub mod xdlms;

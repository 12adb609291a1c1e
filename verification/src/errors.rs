use vstd::prelude::*;

verus! {

/// Every failure an operation can report.  Each error is terminal for the
/// call that raised it: no partial state is committed.
///
/// `UnauthorizedClose` is declared for completeness but never produced:
/// `close_config` is a break-glass recovery path that deliberately does not
/// compare the caller to the stored authority (see its doc comment).
#[derive(Clone, Copy, Debug, PartialEq, Eq, Structural)]
pub enum ErrorCode {
    /// A payment amount of zero was supplied at creation.
    InvalidAmount,
    /// The request identifier exceeds 64 bytes.
    RequestIdTooLong,
    /// The resource identifier exceeds 128 bytes.
    ResourceIdTooLong,
    /// The request was already settled; its state is final.
    AlreadyPaid,
    /// The record stored at the resolved address carries a different
    /// request identifier than the one the caller named.
    RequestIdMismatch,
    /// The request's amount lies below the configured minimum.
    InsufficientPayment,
    /// Only the original requester may cancel an unpaid request.
    UnauthorizedCancellation,
    /// Reserved: closing the configuration is not tied to the authority.
    UnauthorizedClose,
    /// A record already occupies the derived address.
    RecordAlreadyExists,
    /// No record exists at the derived address.
    RecordNotFound,
}

} // verus!

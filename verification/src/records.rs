use vstd::prelude::*;

use crate::errors::ErrorCode;
use crate::IdentityKey;

verus! {

/// The longest request identifier a record accepts, in bytes.
pub const MAX_REQUEST_ID_LEN: usize = 64;

/// The longest resource identifier a record accepts, in bytes.
pub const MAX_RESOURCE_ID_LEN: usize = 128;

/// The byte encoding under which the length limits on the text fields are
/// measured.
pub open spec fn bytes_of(s: Seq<char>) -> Seq<u8> {
    vstd::utf8::encode_utf8(s)
}

/// The singleton configuration record: global policy consulted by every
/// settlement.
#[derive(Clone, Copy, Debug, PartialEq, Eq, Structural)]
pub struct PaymentConfig {
    /// The administrator's identity, fixed at initialization.
    pub authority: IdentityKey,
    /// Where settled funds are routed.
    pub treasury_wallet: IdentityKey,
    /// Settlement of a request whose amount lies below this is rejected.
    pub min_payment_amount: u64,
    /// Cumulative volume of settled payments, saturating at the top of
    /// the counter's range.
    pub total_payment_processed: u64,
    /// The nonce under which this record's address was derived.
    pub bump: u8,
}

/// The mathematical value of a [`PaymentConfig`].
pub struct ConfigData {
    pub authority: IdentityKey,
    pub treasury_wallet: IdentityKey,
    pub min_payment_amount: u64,
    pub total_payment_processed: u64,
    pub bump: u8,
}

impl View for PaymentConfig {
    type V = ConfigData;

    open spec fn view(&self) -> ConfigData {
        ConfigData {
            authority: self.authority,
            treasury_wallet: self.treasury_wallet,
            min_payment_amount: self.min_payment_amount,
            total_payment_processed: self.total_payment_processed,
            bump: self.bump,
        }
    }
}

/// A per-request payment record.  Created unpaid, settled at most once,
/// removed only by cancellation while unpaid.
pub struct PaymentRequest {
    /// The uniqueness key, embedded in the record's derived address.
    pub request_id: String,
    /// Who created the record; authorizes cancellation.
    pub requester: IdentityKey,
    /// The fixed price, strictly positive.
    pub amount: u64,
    /// Opaque descriptor of what the payment buys.
    pub resource_identifier: String,
    /// False at creation, true after settlement; never reset.
    pub is_paid: bool,
    /// When settlement happened; zero while unpaid.
    pub paid_at: i64,
    /// Who settled; the unset sentinel while unpaid.
    pub payer: IdentityKey,
    /// When the record was created.
    pub created_at: i64,
    /// The nonce under which this record's address was derived.
    pub bump: u8,
}

/// The mathematical value of a [`PaymentRequest`].
pub struct RequestData {
    pub request_id: Seq<char>,
    pub requester: IdentityKey,
    pub amount: u64,
    pub resource_identifier: Seq<char>,
    pub is_paid: bool,
    pub paid_at: i64,
    pub payer: IdentityKey,
    pub created_at: i64,
    pub bump: u8,
}

impl View for PaymentRequest {
    type V = RequestData;

    open spec fn view(&self) -> RequestData {
        RequestData {
            request_id: self.request_id@,
            requester: self.requester,
            amount: self.amount,
            resource_identifier: self.resource_identifier@,
            is_paid: self.is_paid,
            paid_at: self.paid_at,
            payer: self.payer,
            created_at: self.created_at,
            bump: self.bump,
        }
    }
}

impl RequestData {
    /// Well-formedness of a stored request: the creation-time validation
    /// holds, and an unpaid record carries no settlement data.
    pub open spec fn wf(self) -> bool {
        &&& self.amount > 0
        &&& bytes_of(self.request_id).len() <= MAX_REQUEST_ID_LEN
        &&& bytes_of(self.resource_identifier).len() <= MAX_RESOURCE_ID_LEN
        &&& !self.is_paid ==> (self.payer == IdentityKey::unset_spec() && self.paid_at == 0)
    }

    /// The record after a settlement by `payer` at time `now`.
    pub open spec fn settled(self, payer: IdentityKey, now: i64) -> RequestData {
        RequestData { is_paid: true, payer: payer, paid_at: now, ..self }
    }
}

/// What `create_payment_request` validates before any record is touched,
/// first failure winning: a positive amount, then the two byte-length
/// limits.
pub open spec fn creation_check(request_id: Seq<char>, amount: u64, resource_identifier: Seq<char>) -> Result<(), ErrorCode> {
    if amount == 0 {
        Err(ErrorCode::InvalidAmount)
    } else if bytes_of(request_id).len() > MAX_REQUEST_ID_LEN {
        Err(ErrorCode::RequestIdTooLong)
    } else if bytes_of(resource_identifier).len() > MAX_RESOURCE_ID_LEN {
        Err(ErrorCode::ResourceIdTooLong)
    } else {
        Ok(())
    }
}

/// Runs the creation-time validation on the plain arguments.
pub fn validate_creation(request_id: &String, amount: u64, resource_identifier: &String) -> (r:
    Result<(), ErrorCode>)
    ensures
        r == creation_check(request_id@, amount, resource_identifier@),
{
    if amount == 0 {
        Err(ErrorCode::InvalidAmount)
    } else if request_id.as_str().as_bytes().len() > MAX_REQUEST_ID_LEN {
        Err(ErrorCode::RequestIdTooLong)
    } else if resource_identifier.as_str().as_bytes().len() > MAX_RESOURCE_ID_LEN {
        Err(ErrorCode::ResourceIdTooLong)
    } else {
        Ok(())
    }
}

/// What `verify_payment` decides for one record, checked in this order and
/// first failure wins: the record must not be settled already, its stored
/// identifier must equal the one the caller named, and its amount must
/// reach the configured minimum.  On success the settlement amount is
/// handed back.
pub open spec fn settlement_check(r: RequestData, request_id: Seq<char>, min_payment_amount: u64) -> Result<u64, ErrorCode> {
    if r.is_paid {
        Err(ErrorCode::AlreadyPaid)
    } else if r.request_id != request_id {
        Err(ErrorCode::RequestIdMismatch)
    } else if r.amount < min_payment_amount {
        Err(ErrorCode::InsufficientPayment)
    } else {
        Ok(r.amount)
    }
}

/// What `cancel_payment_request` decides for one record, in this order:
/// the record must not be settled, its stored identifier must equal the
/// one named, and the caller must be the original requester.
pub open spec fn cancellation_check(r: RequestData, request_id: Seq<char>, caller: IdentityKey) -> Result<(), ErrorCode> {
    if r.is_paid {
        Err(ErrorCode::AlreadyPaid)
    } else if r.request_id != request_id {
        Err(ErrorCode::RequestIdMismatch)
    } else if r.requester != caller {
        Err(ErrorCode::UnauthorizedCancellation)
    } else {
        Ok(())
    }
}

impl PaymentRequest {
    /// Runs the settlement preconditions against this record as the host
    /// handed it over.  The stored-identifier comparison is defense in
    /// depth: a mismatch indicates the resolved address did not bind the
    /// identifier the caller named.
    pub fn check_settlement(&self, request_id: &String, min_payment_amount: u64) -> (r: Result<u64, ErrorCode>)
        ensures
            r == settlement_check(self@, request_id@, min_payment_amount),
    {
        if self.is_paid {
            Err(ErrorCode::AlreadyPaid)
        } else if !(self.request_id == *request_id) {
            Err(ErrorCode::RequestIdMismatch)
        } else if self.amount < min_payment_amount {
            Err(ErrorCode::InsufficientPayment)
        } else {
            Ok(self.amount)
        }
    }

    /// Runs the cancellation preconditions against this record.
    pub fn check_cancellation(&self, request_id: &String, caller: IdentityKey) -> (r: Result<(), ErrorCode>)
        ensures
            r == cancellation_check(self@, request_id@, caller),
    {
        if self.is_paid {
            Err(ErrorCode::AlreadyPaid)
        } else if !(self.request_id == *request_id) {
            Err(ErrorCode::RequestIdMismatch)
        } else if self.requester != caller {
            Err(ErrorCode::UnauthorizedCancellation)
        } else {
            Ok(())
        }
    }
}

} // verus!

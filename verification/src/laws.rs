use vstd::prelude::*;

use crate::errors::ErrorCode;
use crate::records::bytes_of;
use crate::records::ConfigData;
use crate::records::MAX_REQUEST_ID_LEN;
use crate::records::MAX_RESOURCE_ID_LEN;
use crate::store::StoreView;
use crate::store::TransferInstruction;
use crate::IdentityKey;

verus! {

/// A valid request under an identifier not previously used is created
/// exactly once: the first creation succeeds and stores the record
/// unpaid; a second creation under the same identifier fails, whatever
/// its arguments, and leaves the store exactly as the first left it.
pub proof fn lemma_create_exactly_once(
    s: StoreView,
    requester1: IdentityKey,
    requester2: IdentityKey,
    request_id: Seq<char>,
    amount1: u64,
    amount2: u64,
    resource1: Seq<char>,
    resource2: Seq<char>,
    t1: i64,
    t2: i64,
    b1: u8,
    b2: u8,
)
    requires
        !s.requests.dom().contains(request_id),
        amount1 > 0,
        bytes_of(request_id).len() <= MAX_REQUEST_ID_LEN,
        bytes_of(resource1).len() <= MAX_RESOURCE_ID_LEN,
    ensures
        ({
            let (s1, r1) = s.create_payment_request_spec(
                requester1,
                request_id,
                amount1,
                resource1,
                t1,
                b1,
            );
            let (s2, r2) = s1.create_payment_request_spec(
                requester2,
                request_id,
                amount2,
                resource2,
                t2,
                b2,
            );
            &&& r1 == Ok::<(), ErrorCode>(())
            &&& s1.requests.dom().contains(request_id)
            &&& !s1.requests[request_id].is_paid
            &&& !(r2 is Ok)
            &&& s2 == s1
        }),
{
}

/// For a created-but-unpaid request: with an amount that reaches the
/// configured minimum, the settlement check issues a transfer
/// instruction over exactly the record's amount to the treasury, and
/// the commit transitions the record to paid, every other record
/// untouched; with an amount below the minimum both fail with
/// `InsufficientPayment` and the store is left unchanged.
pub proof fn lemma_settlement_transition(
    s: StoreView,
    cfg: ConfigData,
    payer: IdentityKey,
    request_id: Seq<char>,
    now: i64,
)
    requires
        s.wf(),
        s.config == Some(cfg),
        s.requests.dom().contains(request_id),
        !s.requests[request_id].is_paid,
    ensures
        s.requests[request_id].amount >= cfg.min_payment_amount ==> ({
            let (s1, r1) = s.settle_payment_spec(payer, request_id, now);
            &&& s.verify_payment_spec(payer, request_id) == Ok::<TransferInstruction, ErrorCode>(
                TransferInstruction {
                    source: payer,
                    destination: cfg.treasury_wallet,
                    amount: s.requests[request_id].amount,
                },
            )
            &&& r1 == Ok::<(), ErrorCode>(())
            &&& s1.requests[request_id] == s.requests[request_id].settled(payer, now)
            &&& forall|other: Seq<char>| #[trigger] s.requests.dom().contains(other) && other
                != request_id ==> s1.requests.dom().contains(other) && s1.requests[other]
                == s.requests[other]
            &&& s1.requests.dom() =~= s.requests.dom()
        }),
        s.requests[request_id].amount < cfg.min_payment_amount ==> ({
            let (s1, r1) = s.settle_payment_spec(payer, request_id, now);
            &&& s.verify_payment_spec(payer, request_id) == Err::<TransferInstruction, ErrorCode>(
                ErrorCode::InsufficientPayment,
            )
            &&& r1 == Err::<(), ErrorCode>(ErrorCode::InsufficientPayment)
            &&& s1 == s
        }),
{
}

/// Settling the same request twice yields success then `AlreadyPaid`,
/// and the state after both commits equals the state after the first:
/// failure is idempotent, the settled record is never mutated again.
pub proof fn lemma_settlement_idempotent_failure(
    s: StoreView,
    cfg: ConfigData,
    payer1: IdentityKey,
    payer2: IdentityKey,
    request_id: Seq<char>,
    t1: i64,
    t2: i64,
)
    requires
        s.wf(),
        s.config == Some(cfg),
        s.requests.dom().contains(request_id),
        !s.requests[request_id].is_paid,
        s.requests[request_id].amount >= cfg.min_payment_amount,
    ensures
        ({
            let (s1, r1) = s.settle_payment_spec(payer1, request_id, t1);
            let (s2, r2) = s1.settle_payment_spec(payer2, request_id, t2);
            &&& r1 == Ok::<(), ErrorCode>(())
            &&& r2 == Err::<(), ErrorCode>(ErrorCode::AlreadyPaid)
            &&& s2 == s1
            &&& s1.requests[request_id].is_paid
            &&& s1.requests[request_id].payer == payer1
        }),
{
}

/// Two settlements race on the same request: the host serializes them,
/// and whichever is admitted first wins.  In either admission order,
/// exactly one commit succeeds, the other observes `AlreadyPaid`, and
/// the record stays settled by the winner.
pub proof fn lemma_concurrent_settlement(
    s: StoreView,
    cfg: ConfigData,
    payer1: IdentityKey,
    payer2: IdentityKey,
    request_id: Seq<char>,
    t1: i64,
    t2: i64,
)
    requires
        s.wf(),
        s.config == Some(cfg),
        s.requests.dom().contains(request_id),
        !s.requests[request_id].is_paid,
        s.requests[request_id].amount >= cfg.min_payment_amount,
    ensures
        ({
            let (s1, r1) = s.settle_payment_spec(payer1, request_id, t1);
            let (s2, r2) = s1.settle_payment_spec(payer2, request_id, t2);
            r1 == Ok::<(), ErrorCode>(()) && r2 == Err::<(), ErrorCode>(ErrorCode::AlreadyPaid)
                && s2.requests[request_id].payer == payer1
        }),
        ({
            let (s1, r1) = s.settle_payment_spec(payer2, request_id, t2);
            let (s2, r2) = s1.settle_payment_spec(payer1, request_id, t1);
            r1 == Ok::<(), ErrorCode>(()) && r2 == Err::<(), ErrorCode>(ErrorCode::AlreadyPaid)
                && s2.requests[request_id].payer == payer2
        }),
{
    lemma_settlement_idempotent_failure(s, cfg, payer1, payer2, request_id, t1, t2);
    lemma_settlement_idempotent_failure(s, cfg, payer2, payer1, request_id, t2, t1);
}

/// Cancellation succeeds exactly when the caller is the original
/// requester and the record is still unpaid; then the record is deleted
/// and every other record is kept.  Any other caller, or a paid record,
/// is rejected and the store is left unchanged.
pub proof fn lemma_cancellation_authorization(
    s: StoreView,
    caller: IdentityKey,
    request_id: Seq<char>,
)
    requires
        s.wf(),
        s.requests.dom().contains(request_id),
    ensures
        ({
            let (s1, r1) = s.cancel_payment_request_spec(caller, request_id);
            &&& (r1 == Ok::<(), ErrorCode>(())) <==> (!s.requests[request_id].is_paid && caller
                == s.requests[request_id].requester)
            &&& r1 is Ok ==> s1.requests == s.requests.remove(request_id)
            &&& !(r1 is Ok) ==> s1 == s
        }),
{
}

/// A record observed settled stays settled, with the same payer and
/// settlement time, across every further operation of the store: no
/// transition leads out of the paid state.
pub proof fn lemma_paid_is_terminal(s: StoreView, request_id: Seq<char>)
    requires
        s.wf(),
        s.requests.dom().contains(request_id),
        s.requests[request_id].is_paid,
    ensures
        forall|requester: IdentityKey, id: Seq<char>, amount: u64, resource: Seq<char>, t: i64, b: u8|
            (#[trigger] s.create_payment_request_spec(requester, id, amount, resource, t, b)).0.requests[request_id]
            == s.requests[request_id],
        forall|payer: IdentityKey, id: Seq<char>, t: i64|
            (#[trigger] s.settle_payment_spec(payer, id, t)).0.requests[request_id]
            == s.requests[request_id],
        forall|caller: IdentityKey, id: Seq<char>|
            (#[trigger] s.cancel_payment_request_spec(caller, id)).0.requests.dom().contains(
                request_id,
            ) && s.cancel_payment_request_spec(caller, id).0.requests[request_id]
            == s.requests[request_id],
{
    assert forall|requester: IdentityKey, id: Seq<char>, amount: u64, resource: Seq<char>, t: i64, b: u8|
        (#[trigger] s.create_payment_request_spec(requester, id, amount, resource, t, b)).0.requests[request_id]
        == s.requests[request_id] by {
        if id == request_id {
        }
    }
    assert forall|payer: IdentityKey, id: Seq<char>, t: i64|
        (#[trigger] s.settle_payment_spec(payer, id, t)).0.requests[request_id]
        == s.requests[request_id] by {
        if id == request_id {
        }
    }
    assert forall|caller: IdentityKey, id: Seq<char>|
        (#[trigger] s.cancel_payment_request_spec(caller, id)).0.requests.dom().contains(request_id)
        && s.cancel_payment_request_spec(caller, id).0.requests[request_id]
        == s.requests[request_id] by {
        if id == request_id {
        }
    }
}

} // verus!

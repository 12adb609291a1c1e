use vstd::prelude::*;

use crate::errors::ErrorCode;
use crate::records::cancellation_check;
use crate::records::creation_check;
use crate::records::settlement_check;
use crate::records::validate_creation;
use crate::records::ConfigData;
use crate::records::PaymentConfig;
use crate::records::PaymentRequest;
use crate::records::RequestData;
use crate::IdentityKey;

verus! {

/// The instruction the settlement hands to the external value-transfer
/// service: move exactly `amount` from the payer's holding to the
/// treasury, under the payer's authorization.
#[derive(Clone, Copy, Debug, PartialEq, Eq, Structural)]
pub struct TransferInstruction {
    pub source: IdentityKey,
    pub destination: IdentityKey,
    pub amount: u64,
}

/// The snapshot `check_payment_status` reports.  While the request is
/// unpaid, `payer` and `paid_at` hold their creation-time sentinels.
#[derive(Clone, Copy, Debug, PartialEq, Eq, Structural)]
pub struct PaymentStatus {
    pub is_paid: bool,
    pub amount: u64,
    pub payer: IdentityKey,
    pub paid_at: i64,
}

impl PaymentRequest {
    /// The record's settlement state, as `check_payment_status` reports
    /// it.
    pub fn status(&self) -> (r: PaymentStatus)
        ensures
            r == (PaymentStatus {
                is_paid: self.is_paid,
                amount: self.amount,
                payer: self.payer,
                paid_at: self.paid_at,
            }),
    {
        PaymentStatus {
            is_paid: self.is_paid,
            amount: self.amount,
            payer: self.payer,
            paid_at: self.paid_at,
        }
    }
}

/// The mathematical model of the record store: the singleton
/// configuration, and the payment requests keyed by their request
/// identifier — the key the derived address binds.
#[verifier::ext_equal]
pub struct StoreView {
    pub config: Option<ConfigData>,
    pub requests: Map<Seq<char>, RequestData>,
}

/// Saturating addition on the cumulative-volume counter.
pub open spec fn sat_add_u64(a: u64, b: u64) -> u64 {
    if a + b <= u64::MAX {
        (a + b) as u64
    } else {
        u64::MAX
    }
}

impl StoreView {
    /// The store before any record exists.
    pub open spec fn empty() -> StoreView {
        StoreView { config: None, requests: Map::empty() }
    }

    /// Every stored request is well formed and sits under its own
    /// identifier.
    pub open spec fn wf(self) -> bool {
        forall|id: Seq<char>| #[trigger] self.requests.dom().contains(id) ==> (self.requests[id].wf()
            && self.requests[id].request_id == id)
    }

    /// What `initialize_config` does: the singleton is created exactly
    /// once; a second initialization fails because the address is already
    /// occupied, and changes nothing.
    pub open spec fn initialize_config_spec(
        self,
        authority: IdentityKey,
        treasury_wallet: IdentityKey,
        min_payment_amount: u64,
        bump: u8,
    ) -> (StoreView, Result<(), ErrorCode>) {
        match self.config {
            Some(_) => (self, Err(ErrorCode::RecordAlreadyExists)),
            None => (
                StoreView {
                    config: Some(
                        ConfigData {
                            authority: authority,
                            treasury_wallet: treasury_wallet,
                            min_payment_amount: min_payment_amount,
                            total_payment_processed: 0,
                            bump: bump,
                        },
                    ),
                    ..self
                },
                Ok(()),
            ),
        }
    }

    /// What `create_payment_request` does, first failure winning: the
    /// amount must be positive, the identifiers within their byte limits,
    /// and no record may occupy the identifier's derived address; then
    /// the record is created unpaid, with the payer unset.
    pub open spec fn create_payment_request_spec(
        self,
        requester: IdentityKey,
        request_id: Seq<char>,
        amount: u64,
        resource_identifier: Seq<char>,
        now: i64,
        bump: u8,
    ) -> (StoreView, Result<(), ErrorCode>) {
        match creation_check(request_id, amount, resource_identifier) {
            Err(e) => (self, Err(e)),
            Ok(_) => if self.requests.dom().contains(request_id) {
                (self, Err(ErrorCode::RecordAlreadyExists))
            } else {
                (
                    StoreView {
                        requests: self.requests.insert(
                            request_id,
                            RequestData {
                                request_id: request_id,
                                requester: requester,
                                amount: amount,
                                resource_identifier: resource_identifier,
                                is_paid: false,
                                paid_at: 0,
                                payer: IdentityKey::unset_spec(),
                                created_at: now,
                                bump: bump,
                            },
                        ),
                        ..self
                    },
                    Ok(()),
                )
            },
        }
    }

    /// What `verify_payment` decides: both records must exist, and the
    /// settlement preconditions must hold; then the transfer instruction
    /// is issued — exactly the record's amount, to the configured
    /// treasury, from the calling payer's holding.
    pub open spec fn verify_payment_spec(self, payer: IdentityKey, request_id: Seq<char>) -> Result<
        TransferInstruction,
        ErrorCode,
    > {
        match self.config {
            None => Err(ErrorCode::RecordNotFound),
            Some(c) => if !self.requests.dom().contains(request_id) {
                Err(ErrorCode::RecordNotFound)
            } else {
                match settlement_check(self.requests[request_id], request_id, c.min_payment_amount) {
                    Err(e) => Err(e),
                    Ok(amount) => Ok(
                        TransferInstruction {
                            source: payer,
                            destination: c.treasury_wallet,
                            amount: amount,
                        },
                    ),
                }
            },
        }
    }

    /// What `settle_payment` does once the transfer went through: under
    /// the same preconditions as `verify_payment`, the record transitions
    /// to paid — recording the payer and the settlement time — and the
    /// cumulative volume grows by the amount; any failure leaves the
    /// store untouched.
    pub open spec fn settle_payment_spec(
        self,
        payer: IdentityKey,
        request_id: Seq<char>,
        now: i64,
    ) -> (StoreView, Result<(), ErrorCode>) {
        match self.config {
            None => (self, Err(ErrorCode::RecordNotFound)),
            Some(c) => if !self.requests.dom().contains(request_id) {
                (self, Err(ErrorCode::RecordNotFound))
            } else {
                match settlement_check(self.requests[request_id], request_id, c.min_payment_amount) {
                    Err(e) => (self, Err(e)),
                    Ok(amount) => (
                        StoreView {
                            config: Some(
                                ConfigData {
                                    total_payment_processed: sat_add_u64(
                                        c.total_payment_processed,
                                        amount,
                                    ),
                                    ..c
                                },
                            ),
                            requests: self.requests.insert(
                                request_id,
                                self.requests[request_id].settled(payer, now),
                            ),
                        },
                        Ok(()),
                    ),
                }
            },
        }
    }

    /// What `check_payment_status` reports: a snapshot of the record, and
    /// no state change.
    pub open spec fn check_payment_status_spec(self, request_id: Seq<char>) -> Result<
        PaymentStatus,
        ErrorCode,
    > {
        if !self.requests.dom().contains(request_id) {
            Err(ErrorCode::RecordNotFound)
        } else {
            let r = self.requests[request_id];
            Ok(PaymentStatus { is_paid: r.is_paid, amount: r.amount, payer: r.payer, paid_at: r.paid_at })
        }
    }

    /// What `cancel_payment_request` does: under the cancellation
    /// preconditions — unpaid, identifier bound, caller is the requester
    /// — the record is deleted; any failure leaves the store untouched.
    pub open spec fn cancel_payment_request_spec(
        self,
        caller: IdentityKey,
        request_id: Seq<char>,
    ) -> (StoreView, Result<(), ErrorCode>) {
        if !self.requests.dom().contains(request_id) {
            (self, Err(ErrorCode::RecordNotFound))
        } else {
            match cancellation_check(self.requests[request_id], request_id, caller) {
                Err(e) => (self, Err(e)),
                Ok(_) => (
                    StoreView { requests: self.requests.remove(request_id), ..self },
                    Ok(()),
                ),
            }
        }
    }

    /// What `close_config` does: the configuration record is removed for
    /// every caller — the caller's identity is deliberately not compared
    /// to the stored authority, keeping the operation usable as a
    /// break-glass recovery path.
    pub open spec fn close_config_spec(self, caller: IdentityKey) -> (StoreView, Result<
        (),
        ErrorCode,
    >) {
        match self.config {
            None => (self, Err(ErrorCode::RecordNotFound)),
            Some(_) => (StoreView { config: None, ..self }, Ok(())),
        }
    }
}

/// No two records of the sequence share a request identifier.
pub open spec fn ids_unique(s: Seq<PaymentRequest>) -> bool {
    forall|i: int, j: int|
        0 <= i < s.len() && 0 <= j < s.len() && i != j ==> (#[trigger] s[i]).request_id@ != (#[trigger] s[j]).request_id@
}

/// Some record of the sequence carries this identifier.
pub open spec fn contains_id(s: Seq<PaymentRequest>, id: Seq<char>) -> bool {
    exists|i: int| 0 <= i < s.len() && (#[trigger] s[i]).request_id@ == id
}

/// The position of the record carrying this identifier.
pub open spec fn index_of(s: Seq<PaymentRequest>, id: Seq<char>) -> int {
    choose|i: int| 0 <= i < s.len() && (#[trigger] s[i]).request_id@ == id
}

/// The sequence of records, read as a map from identifier to record.
pub open spec fn request_map(s: Seq<PaymentRequest>) -> Map<Seq<char>, RequestData> {
    Map::new(|id: Seq<char>| contains_id(s, id), |id: Seq<char>| s[index_of(s, id)]@)
}

/// The chosen position is the one position carrying the identifier.
proof fn lemma_index_of(s: Seq<PaymentRequest>, id: Seq<char>)
    requires
        ids_unique(s),
        contains_id(s, id),
    ensures
        0 <= index_of(s, id) < s.len(),
        s[index_of(s, id)].request_id@ == id,
        forall|i: int| 0 <= i < s.len() && (#[trigger] s[i]).request_id@ == id ==> i == index_of(s, id),
{
    let j = index_of(s, id);
    assert(0 <= j < s.len() && s[j].request_id@ == id);
    assert forall|i: int| 0 <= i < s.len() && (#[trigger] s[i]).request_id@ == id implies i == j by {
        if i != j {
            assert(s[i].request_id@ != s[j].request_id@);
        }
    }
}

/// Appending a record under a fresh identifier inserts it into the map.
proof fn lemma_push_map(s: Seq<PaymentRequest>, r: PaymentRequest)
    requires
        ids_unique(s),
        !contains_id(s, r.request_id@),
    ensures
        ids_unique(s.push(r)),
        request_map(s.push(r)) =~= request_map(s).insert(r.request_id@, r@),
{
    let s2 = s.push(r);
    assert forall|i: int, j: int|
        0 <= i < s2.len() && 0 <= j < s2.len() && i != j implies (#[trigger] s2[i]).request_id@ != (#[trigger] s2[j]).request_id@ by {
        if i < s.len() && j < s.len() {
            assert(s2[i] == s[i] && s2[j] == s[j]);
        } else if i == s.len() {
            assert(s2[i] == r && s2[j] == s[j]);
            if s[j].request_id@ == r.request_id@ {
                assert(contains_id(s, r.request_id@));
            }
        } else {
            assert(s2[j] == r && s2[i] == s[i]);
            if s[i].request_id@ == r.request_id@ {
                assert(contains_id(s, r.request_id@));
            }
        }
    }
    assert forall|id: Seq<char>| #[trigger] contains_id(s2, id) implies contains_id(s, id) || id
        == r.request_id@ by {
        let i = choose|i: int| 0 <= i < s2.len() && (#[trigger] s2[i]).request_id@ == id;
        if i < s.len() {
            assert(s2[i] == s[i]);
            assert(contains_id(s, id));
        } else {
            assert(s2[i] == r);
        }
    }
    assert forall|id: Seq<char>| contains_id(s, id) implies #[trigger] contains_id(s2, id) by {
        let i = choose|i: int| 0 <= i < s.len() && (#[trigger] s[i]).request_id@ == id;
        assert(s2[i] == s[i]);
        assert(contains_id(s2, id));
    }
    assert(s2[s.len() as int] == r);
    assert(contains_id(s2, r.request_id@));
    assert forall|id: Seq<char>| #[trigger] contains_id(s2, id) implies s2[index_of(s2, id)]@
        == request_map(s).insert(r.request_id@, r@)[id] by {
        lemma_index_of(s2, id);
        let i = index_of(s2, id);
        if id == r.request_id@ {
            if i < s.len() {
                assert(s2[i] == s[i]);
                assert(contains_id(s, id));
            }
            assert(s2[i] == r);
        } else {
            assert(contains_id(s, id));
            lemma_index_of(s, id);
            assert(s2[index_of(s, id)] == s[index_of(s, id)]);
            assert(i == index_of(s, id));
        }
    }
}

/// Overwriting a record in place, keeping its identifier, updates the map
/// at that identifier.
proof fn lemma_update_map(s: Seq<PaymentRequest>, k: int, r: PaymentRequest)
    requires
        ids_unique(s),
        0 <= k < s.len(),
        r.request_id@ == s[k].request_id@,
    ensures
        ids_unique(s.update(k, r)),
        request_map(s.update(k, r)) =~= request_map(s).insert(r.request_id@, r@),
{
    let s2 = s.update(k, r);
    assert forall|i: int, j: int|
        0 <= i < s2.len() && 0 <= j < s2.len() && i != j implies (#[trigger] s2[i]).request_id@ != (#[trigger] s2[j]).request_id@ by {
        assert(s2[i].request_id@ == s[i].request_id@);
        assert(s2[j].request_id@ == s[j].request_id@);
    }
    assert forall|id: Seq<char>| #[trigger] contains_id(s2, id) implies contains_id(s, id) by {
        let i = choose|i: int| 0 <= i < s2.len() && (#[trigger] s2[i]).request_id@ == id;
        assert(s[i].request_id@ == id);
        assert(contains_id(s, id));
    }
    assert forall|id: Seq<char>| #[trigger] contains_id(s, id) implies contains_id(s2, id) by {
        let i = choose|i: int| 0 <= i < s.len() && (#[trigger] s[i]).request_id@ == id;
        assert(s2[i].request_id@ == id);
        assert(contains_id(s2, id));
    }
    assert(contains_id(s, r.request_id@)) by {
        assert(0 <= k < s.len() && s[k].request_id@ == r.request_id@);
    }
    assert forall|id: Seq<char>| #[trigger] contains_id(s2, id) implies s2[index_of(s2, id)]@
        == request_map(s).insert(r.request_id@, r@)[id] by {
        lemma_index_of(s2, id);
        lemma_index_of(s, id);
        let i = index_of(s2, id);
        assert(s[i].request_id@ == id);
        assert(i == index_of(s, id));
        if id == r.request_id@ {
            assert(i == k);
            assert(s2[i] == r);
        } else {
            assert(i != k);
            assert(s2[i] == s[i]);
        }
    }
}

/// The record store: one singleton configuration and the payment-request
/// records, located by their identifier as the host locates them by the
/// address the identifier derives.
pub struct RecordStore {
    config: Option<PaymentConfig>,
    requests: Vec<PaymentRequest>,
}

impl View for RecordStore {
    type V = StoreView;

    closed spec fn view(&self) -> StoreView {
        StoreView {
            config: match self.config {
                Some(c) => Some(c@),
                None => None,
            },
            requests: request_map(self.requests@),
        }
    }
}

impl RecordStore {
    /// The store's internal invariant: identifiers are unique — the
    /// derived address is the uniqueness key — and every stored record is
    /// well formed.
    pub closed spec fn inv(&self) -> bool {
        &&& ids_unique(self.requests@)
        &&& forall|k: int| 0 <= k < self.requests@.len() ==> (#[trigger] self.requests@[k])@.wf()
    }

    /// The invariant carries over to the model: every stored request is
    /// well formed and keyed by its own identifier.
    pub proof fn lemma_inv_wf(&self)
        requires
            self.inv(),
        ensures
            self@.wf(),
    {
        assert forall|id: Seq<char>| #[trigger] self@.requests.dom().contains(id) implies (
        self@.requests[id].wf() && self@.requests[id].request_id == id) by {
            lemma_index_of(self.requests@, id);
        }
    }

    /// An empty store.
    pub fn new() -> (s: RecordStore)
        ensures
            s.inv(),
            s@ == StoreView::empty(),
    {
        let s = RecordStore { config: None, requests: Vec::new() };
        proof {
            assert(s@.requests =~= Map::<Seq<char>, RequestData>::empty());
        }
        s
    }

    /// The position of the record carrying this identifier, if any.
    fn find_request(&self, request_id: &String) -> (r: Option<usize>)
        ensures
            match r {
                Some(i) => i < self.requests@.len() && self.requests@[i as int].request_id@
                    == request_id@,
                None => !contains_id(self.requests@, request_id@),
            },
    {
        let n = self.requests.len();
        let mut i: usize = 0;
        while i < n
            invariant
                n == self.requests@.len(),
                i <= n,
                forall|k: int| 0 <= k < i ==> (#[trigger] self.requests@[k]).request_id@ != request_id@,
            decreases n - i,
        {
            if self.requests[i].request_id == *request_id {
                return Some(i);
            }
            i = i + 1;
        }
        None
    }

    /// The configuration record as currently stored.
    pub fn current_config(&self) -> (r: Option<PaymentConfig>)
        ensures
            match r {
                Some(c) => self@.config == Some(c@),
                None => self@.config is None,
            },
    {
        match &self.config {
            Some(c) => Some(*c),
            None => None,
        }
    }

    /// Creates the singleton configuration record.  A second call fails
    /// because the derived address is already occupied — the system's
    /// only defense against re-initialization — and changes nothing.
    pub fn initialize_config(
        &mut self,
        authority: IdentityKey,
        treasury_wallet: IdentityKey,
        min_payment_amount: u64,
        bump: u8,
    ) -> (r: Result<(), ErrorCode>)
        requires
            old(self).inv(),
        ensures
            final(self).inv(),
            (final(self)@, r) == old(self)@.initialize_config_spec(
                authority,
                treasury_wallet,
                min_payment_amount,
                bump,
            ),
    {
        if self.config.is_some() {
            return Err(ErrorCode::RecordAlreadyExists);
        }
        self.config = Some(
            PaymentConfig {
                authority: authority,
                treasury_wallet: treasury_wallet,
                min_payment_amount: min_payment_amount,
                total_payment_processed: 0,
                bump: bump,
            },
        );
        Ok(())
    }

    /// Creates a payment request in the unpaid state, validating the
    /// amount and the identifier lengths first, then the uniqueness of
    /// the derived address.  `now` is the host clock's reading.
    pub fn create_payment_request(
        &mut self,
        requester: IdentityKey,
        request_id: String,
        amount: u64,
        resource_identifier: String,
        now: i64,
        bump: u8,
    ) -> (r: Result<(), ErrorCode>)
        requires
            old(self).inv(),
        ensures
            final(self).inv(),
            (final(self)@, r) == old(self)@.create_payment_request_spec(
                requester,
                request_id@,
                amount,
                resource_identifier@,
                now,
                bump,
            ),
    {
        match validate_creation(&request_id, amount, &resource_identifier) {
            Err(e) => { return Err(e); },
            Ok(_) => {},
        }
        if self.find_request(&request_id).is_some() {
            return Err(ErrorCode::RecordAlreadyExists);
        }
        let record = PaymentRequest {
            request_id: request_id,
            requester: requester,
            amount: amount,
            resource_identifier: resource_identifier,
            is_paid: false,
            paid_at: 0,
            payer: IdentityKey::unset(),
            created_at: now,
            bump: bump,
        };
        proof {
            lemma_push_map(self.requests@, record);
        }
        self.requests.push(record);
        Ok(())
    }

    /// The check phase of settlement: validates the preconditions and
    /// issues the transfer instruction — exactly the record's amount,
    /// from the payer's holding to the treasury — without touching any
    /// state.  The caller performs the transfer and, only once it
    /// succeeded, commits with `settle_payment`; a failed transfer thus
    /// leaves no observable mutation.
    pub fn verify_payment(&self, payer: IdentityKey, request_id: &String) -> (r: Result<
        TransferInstruction,
        ErrorCode,
    >)
        requires
            self.inv(),
        ensures
            r == self@.verify_payment_spec(payer, request_id@),
    {
        let min_payment_amount = match &self.config {
            None => { return Err(ErrorCode::RecordNotFound); },
            Some(c) => c.min_payment_amount,
        };
        let i = match self.find_request(request_id) {
            None => { return Err(ErrorCode::RecordNotFound); },
            Some(i) => i,
        };
        proof {
            lemma_index_of(self.requests@, request_id@);
        }
        let amount = match self.requests[i].check_settlement(request_id, min_payment_amount) {
            Err(e) => { return Err(e); },
            Ok(a) => a,
        };
        let treasury_wallet = match &self.config {
            None => { return Err(ErrorCode::RecordNotFound); },
            Some(c) => c.treasury_wallet,
        };
        Ok(TransferInstruction { source: payer, destination: treasury_wallet, amount: amount })
    }

    /// The commit phase of settlement, after the transfer went through:
    /// re-validates the same preconditions, then transitions the record
    /// to paid — recording the payer and the settlement time — and adds
    /// the amount to the cumulative volume.  Any failure leaves the
    /// store untouched.
    pub fn settle_payment(&mut self, payer: IdentityKey, request_id: &String, now: i64) -> (r:
        Result<(), ErrorCode>)
        requires
            old(self).inv(),
        ensures
            final(self).inv(),
            (final(self)@, r) == old(self)@.settle_payment_spec(payer, request_id@, now),
    {
        let min_payment_amount = match &self.config {
            None => { return Err(ErrorCode::RecordNotFound); },
            Some(c) => c.min_payment_amount,
        };
        let i = match self.find_request(request_id) {
            None => { return Err(ErrorCode::RecordNotFound); },
            Some(i) => i,
        };
        proof {
            lemma_index_of(self.requests@, request_id@);
        }
        let amount = match self.requests[i].check_settlement(request_id, min_payment_amount) {
            Err(e) => { return Err(e); },
            Ok(a) => a,
        };
        let ghost s_old = self.requests@;
        let record = &mut self.requests[i];
        record.is_paid = true;
        record.payer = payer;
        record.paid_at = now;
        proof {
            lemma_update_map(s_old, i as int, self.requests@[i as int]);
        }
        match &mut self.config {
            Some(c) => {
                if c.total_payment_processed <= u64::MAX - amount {
                    c.total_payment_processed = c.total_payment_processed + amount;
                } else {
                    c.total_payment_processed = u64::MAX;
                }
            },
            None => {},
        }
        Ok(())
    }

    /// Reports the record's settlement state: read-only, with no state
    /// transition.
    pub fn check_payment_status(&self, request_id: &String) -> (r: Result<PaymentStatus, ErrorCode>)
        requires
            self.inv(),
        ensures
            r == self@.check_payment_status_spec(request_id@),
    {
        let i = match self.find_request(request_id) {
            None => { return Err(ErrorCode::RecordNotFound); },
            Some(i) => i,
        };
        proof {
            lemma_index_of(self.requests@, request_id@);
        }
        let record = &self.requests[i];
        Ok(
            PaymentStatus {
                is_paid: record.is_paid,
                amount: record.amount,
                payer: record.payer,
                paid_at: record.paid_at,
            },
        )
    }

    /// Deletes an unpaid request, on the original requester's call alone;
    /// the host returns the record's storage deposit to the requester.
    /// Any failure leaves the store untouched.
    pub fn cancel_payment_request(&mut self, caller: IdentityKey, request_id: &String) -> (r:
        Result<(), ErrorCode>)
        requires
            old(self).inv(),
        ensures
            final(self).inv(),
            (final(self)@, r) == old(self)@.cancel_payment_request_spec(caller, request_id@),
    {
        let i = match self.find_request(request_id) {
            None => { return Err(ErrorCode::RecordNotFound); },
            Some(i) => i,
        };
        proof {
            lemma_index_of(self.requests@, request_id@);
        }
        match self.requests[i].check_cancellation(request_id, caller) {
            Err(e) => { return Err(e); },
            Ok(_) => {},
        }
        proof {
            lemma_remove_map(self.requests@, i as int);
        }
        self.requests.remove(i);
        Ok(())
    }

    /// Removes the configuration record for every caller, well formed or
    /// not; the host hands the caller its storage deposit.  The caller's
    /// identity is deliberately not compared to the stored authority:
    /// the operation is a break-glass recovery path, and its contract
    /// states that openness rather than silently tightening it.
    pub fn close_config(&mut self, caller: IdentityKey) -> (r: Result<(), ErrorCode>)
        requires
            old(self).inv(),
        ensures
            final(self).inv(),
            (final(self)@, r) == old(self)@.close_config_spec(caller),
    {
        if self.config.is_none() {
            return Err(ErrorCode::RecordNotFound);
        }
        self.config = None;
        Ok(())
    }
}

/// Deleting the record at one position removes its identifier from the
/// map.
proof fn lemma_remove_map(s: Seq<PaymentRequest>, k: int)
    requires
        ids_unique(s),
        0 <= k < s.len(),
    ensures
        ids_unique(s.remove(k)),
        request_map(s.remove(k)) =~= request_map(s).remove(s[k].request_id@),
{
    let s2 = s.remove(k);
    assert forall|i: int, j: int|
        0 <= i < s2.len() && 0 <= j < s2.len() && i != j implies (#[trigger] s2[i]).request_id@ != (#[trigger] s2[j]).request_id@ by {
        let i0 = if i < k { i } else { i + 1 };
        let j0 = if j < k { j } else { j + 1 };
        assert(s2[i] == s[i0] && s2[j] == s[j0]);
    }
    assert forall|id: Seq<char>| #[trigger] contains_id(s2, id) implies contains_id(s, id) && id
        != s[k].request_id@ by {
        let i = choose|i: int| 0 <= i < s2.len() && (#[trigger] s2[i]).request_id@ == id;
        let i0 = if i < k { i } else { i + 1 };
        assert(s2[i] == s[i0]);
        assert(contains_id(s, id));
        if id == s[k].request_id@ {
            assert(s[i0].request_id@ == s[k].request_id@ && i0 != k);
        }
    }
    assert forall|id: Seq<char>| contains_id(s, id) && id != s[k].request_id@ implies #[trigger] contains_id(
        s2,
        id,
    ) by {
        let i = choose|i: int| 0 <= i < s.len() && (#[trigger] s[i]).request_id@ == id;
        assert(i != k);
        let i2 = if i < k { i } else { i - 1 };
        assert(s2[i2] == s[i]);
        assert(contains_id(s2, id));
    }
    assert forall|id: Seq<char>| #[trigger] contains_id(s2, id) implies s2[index_of(s2, id)]@
        == request_map(s)[id] by {
        lemma_index_of(s2, id);
        lemma_index_of(s, id);
        let i = index_of(s2, id);
        let i0 = if i < k { i } else { i + 1 };
        assert(s2[i] == s[i0]);
        assert(i0 == index_of(s, id));
    }
}

} // verus!

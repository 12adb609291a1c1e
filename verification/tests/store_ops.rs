use solana_x402::errors::ErrorCode;
use solana_x402::records::PaymentRequest;
use solana_x402::store::RecordStore;
use solana_x402::store::TransferInstruction;
use solana_x402::IdentityKey;

const NOW: i64 = 1_700_000_000;
const BUMP: u8 = 255;

fn key(n: u64) -> IdentityKey {
    IdentityKey { w0: n, w1: n + 1, w2: 0, w3: 7 }
}

fn authority() -> IdentityKey {
    key(10)
}

fn treasury() -> IdentityKey {
    key(20)
}

fn requester() -> IdentityKey {
    key(30)
}

fn payer() -> IdentityKey {
    key(40)
}

fn store_with_config(min_payment_amount: u64) -> RecordStore {
    let mut store = RecordStore::new();
    let r = store.initialize_config(authority(), treasury(), min_payment_amount, BUMP);
    assert_eq!(r, Ok(()));
    store
}

#[test]
fn initialize_config_is_single_use() {
    let mut store = RecordStore::new();
    assert_eq!(store.initialize_config(authority(), treasury(), 100, BUMP), Ok(()));
    let config = store.current_config().expect("config must exist");
    assert_eq!(config.authority, authority());
    assert_eq!(config.treasury_wallet, treasury());
    assert_eq!(config.min_payment_amount, 100);
    assert_eq!(config.total_payment_processed, 0);
    assert_eq!(config.bump, BUMP);
    assert_eq!(
        store.initialize_config(authority(), treasury(), 500, BUMP),
        Err(ErrorCode::RecordAlreadyExists)
    );
    let kept = store.current_config().expect("config must survive the refusal");
    assert_eq!(kept.min_payment_amount, 100);
}

#[test]
fn round_trip_create_status_settle() {
    let mut store = store_with_config(100);
    let r = store.create_payment_request(
        requester(),
        "r1".to_string(),
        500,
        "doc://x".to_string(),
        NOW,
        BUMP,
    );
    assert_eq!(r, Ok(()));

    let status = store.check_payment_status(&"r1".to_string()).unwrap();
    assert!(!status.is_paid);
    assert_eq!(status.amount, 500);

    let instruction = store.verify_payment(payer(), &"r1".to_string()).unwrap();
    assert_eq!(
        instruction,
        TransferInstruction { source: payer(), destination: treasury(), amount: 500 }
    );
    assert_eq!(store.settle_payment(payer(), &"r1".to_string(), NOW + 5), Ok(()));

    let status = store.check_payment_status(&"r1".to_string()).unwrap();
    assert!(status.is_paid);
    assert_eq!(status.amount, 500);
    assert_eq!(status.payer, payer());
    assert_eq!(status.paid_at, NOW + 5);
}

#[test]
fn create_rejects_duplicate_request_id() {
    let mut store = store_with_config(100);
    let create = |store: &mut RecordStore, amount: u64| {
        store.create_payment_request(
            requester(),
            "job-1".to_string(),
            amount,
            "doc://a".to_string(),
            NOW,
            BUMP,
        )
    };
    assert_eq!(create(&mut store, 300), Ok(()));
    assert_eq!(create(&mut store, 400), Err(ErrorCode::RecordAlreadyExists));
    let status = store.check_payment_status(&"job-1".to_string()).unwrap();
    assert_eq!(status.amount, 300);
}

#[test]
fn create_boundary_lengths_and_amount() {
    let mut store = store_with_config(1);
    let id64 = "a".repeat(64);
    let id65 = "a".repeat(65);
    let res128 = "b".repeat(128);
    let res129 = "b".repeat(129);

    assert_eq!(
        store.create_payment_request(requester(), id64.clone(), 1, res128, NOW, BUMP),
        Ok(())
    );
    assert_eq!(
        store.create_payment_request(requester(), id65, 1, "r".to_string(), NOW, BUMP),
        Err(ErrorCode::RequestIdTooLong)
    );
    assert_eq!(
        store.create_payment_request(requester(), "short".to_string(), 1, res129, NOW, BUMP),
        Err(ErrorCode::ResourceIdTooLong)
    );
    assert_eq!(
        store.create_payment_request(requester(), "zero".to_string(), 0, "r".to_string(), NOW, BUMP),
        Err(ErrorCode::InvalidAmount)
    );
    assert!(store.check_payment_status(&id64).is_ok());
}

#[test]
fn settlement_below_minimum_fails_and_changes_nothing() {
    let mut store = store_with_config(1000);
    store
        .create_payment_request(requester(), "small".to_string(), 500, "doc".to_string(), NOW, BUMP)
        .unwrap();
    assert_eq!(
        store.verify_payment(payer(), &"small".to_string()),
        Err(ErrorCode::InsufficientPayment)
    );
    assert_eq!(
        store.settle_payment(payer(), &"small".to_string(), NOW),
        Err(ErrorCode::InsufficientPayment)
    );
    let status = store.check_payment_status(&"small".to_string()).unwrap();
    assert!(!status.is_paid);
    assert_eq!(status.payer, IdentityKey::unset());
    assert_eq!(store.current_config().unwrap().total_payment_processed, 0);
}

#[test]
fn settling_twice_fails_with_already_paid() {
    let mut store = store_with_config(100);
    store
        .create_payment_request(requester(), "once".to_string(), 250, "doc".to_string(), NOW, BUMP)
        .unwrap();
    assert_eq!(store.settle_payment(payer(), &"once".to_string(), NOW + 1), Ok(()));
    assert_eq!(
        store.settle_payment(key(41), &"once".to_string(), NOW + 2),
        Err(ErrorCode::AlreadyPaid)
    );
    let status = store.check_payment_status(&"once".to_string()).unwrap();
    assert!(status.is_paid);
    assert_eq!(status.payer, payer());
    assert_eq!(status.paid_at, NOW + 1);
    assert_eq!(store.current_config().unwrap().total_payment_processed, 250);
}

#[test]
fn settlement_accumulates_processed_volume() {
    let mut store = store_with_config(1);
    store
        .create_payment_request(requester(), "a".to_string(), 70, "doc".to_string(), NOW, BUMP)
        .unwrap();
    store
        .create_payment_request(requester(), "b".to_string(), 30, "doc".to_string(), NOW, BUMP)
        .unwrap();
    store.settle_payment(payer(), &"a".to_string(), NOW).unwrap();
    store.settle_payment(payer(), &"b".to_string(), NOW).unwrap();
    assert_eq!(store.current_config().unwrap().total_payment_processed, 100);
}

#[test]
fn verify_payment_without_records_reports_not_found() {
    let store = RecordStore::new();
    assert_eq!(
        store.verify_payment(payer(), &"nothing".to_string()),
        Err(ErrorCode::RecordNotFound)
    );
    let mut store = store_with_config(1);
    assert_eq!(
        store.verify_payment(payer(), &"nothing".to_string()),
        Err(ErrorCode::RecordNotFound)
    );
    assert_eq!(
        store.settle_payment(payer(), &"nothing".to_string(), NOW),
        Err(ErrorCode::RecordNotFound)
    );
    assert_eq!(
        store.check_payment_status(&"nothing".to_string()),
        Err(ErrorCode::RecordNotFound)
    );
}

#[test]
fn cancel_requires_the_requester_and_an_unpaid_record() {
    let mut store = store_with_config(100);
    store
        .create_payment_request(requester(), "c1".to_string(), 500, "doc".to_string(), NOW, BUMP)
        .unwrap();

    assert_eq!(
        store.cancel_payment_request(payer(), &"c1".to_string()),
        Err(ErrorCode::UnauthorizedCancellation)
    );
    assert!(store.check_payment_status(&"c1".to_string()).is_ok());

    assert_eq!(store.cancel_payment_request(requester(), &"c1".to_string()), Ok(()));
    assert_eq!(
        store.check_payment_status(&"c1".to_string()),
        Err(ErrorCode::RecordNotFound)
    );
    assert_eq!(
        store.cancel_payment_request(requester(), &"c1".to_string()),
        Err(ErrorCode::RecordNotFound)
    );
}

#[test]
fn cancel_of_a_paid_record_is_rejected() {
    let mut store = store_with_config(100);
    store
        .create_payment_request(requester(), "c2".to_string(), 500, "doc".to_string(), NOW, BUMP)
        .unwrap();
    store.settle_payment(payer(), &"c2".to_string(), NOW).unwrap();
    assert_eq!(
        store.cancel_payment_request(requester(), &"c2".to_string()),
        Err(ErrorCode::AlreadyPaid)
    );
    let status = store.check_payment_status(&"c2".to_string()).unwrap();
    assert!(status.is_paid);
}

#[test]
fn record_level_checks_report_identifier_mismatch() {
    let record = PaymentRequest {
        request_id: "stored".to_string(),
        requester: requester(),
        amount: 500,
        resource_identifier: "doc".to_string(),
        is_paid: false,
        paid_at: 0,
        payer: IdentityKey::unset(),
        created_at: NOW,
        bump: BUMP,
    };
    assert_eq!(
        record.check_settlement(&"other".to_string(), 100),
        Err(ErrorCode::RequestIdMismatch)
    );
    assert_eq!(record.check_settlement(&"stored".to_string(), 100), Ok(500));
    assert_eq!(
        record.check_cancellation(&"other".to_string(), requester()),
        Err(ErrorCode::RequestIdMismatch)
    );
    assert_eq!(record.check_cancellation(&"stored".to_string(), requester()), Ok(()));
}

#[test]
fn close_config_works_for_any_caller() {
    let mut store = store_with_config(100);
    let stranger = key(11);
    assert_eq!(store.close_config(stranger), Ok(()));
    assert!(store.current_config().is_none());
    assert_eq!(store.close_config(authority()), Err(ErrorCode::RecordNotFound));
}

#[test]
fn processed_volume_saturates_at_the_counter_top() {
    let mut store = store_with_config(1);
    store
        .create_payment_request(requester(), "huge".to_string(), u64::MAX, "doc".to_string(), NOW, BUMP)
        .unwrap();
    store
        .create_payment_request(requester(), "more".to_string(), 5, "doc".to_string(), NOW, BUMP)
        .unwrap();
    store.settle_payment(payer(), &"huge".to_string(), NOW).unwrap();
    assert_eq!(store.current_config().unwrap().total_payment_processed, u64::MAX);
    store.settle_payment(payer(), &"more".to_string(), NOW).unwrap();
    assert_eq!(store.current_config().unwrap().total_payment_processed, u64::MAX);
}

#[test]
fn authorization_compares_whole_identities() {
    let mut store = store_with_config(100);
    store
        .create_payment_request(requester(), "w".to_string(), 500, "doc".to_string(), NOW, BUMP)
        .unwrap();
    let same_first_word = IdentityKey { w3: 8, ..requester() };
    assert_eq!(
        store.cancel_payment_request(same_first_word, &"w".to_string()),
        Err(ErrorCode::UnauthorizedCancellation)
    );
    assert_eq!(store.cancel_payment_request(requester(), &"w".to_string()), Ok(()));
}

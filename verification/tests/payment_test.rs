use fluxapay::access_control::{role_merchant, role_oracle, role_settlement_operator};
use fluxapay::format_id;
use fluxapay::payments::{
    bump_threshold, payment_ttl, FluxaError, PaymentProcessor, PaymentStatus, LONG_LIVE_TTL,
    SHORT_LIVE_TTL,
};

fn bs(x: &str) -> Vec<u8> {
    x.as_bytes().to_vec()
}

fn setup_payment_processor() -> (Vec<u8>, PaymentProcessor) {
    let mut client = PaymentProcessor::new();
    let admin = bs("GADMIN");
    client.initialize_payment_processor(admin.clone()).unwrap();
    (admin, client)
}

/// Creates a USDC payment that expires an hour after `now`.
fn create_at(client: &mut PaymentProcessor, payment_id: &Vec<u8>, merchant_id: &Vec<u8>, amount: i128, deposit: &Vec<u8>, now: u64) -> Result<(), FluxaError> {
    client.create_payment(payment_id.clone(), merchant_id.clone(), amount, bs("USDC"), deposit.clone(), now + 3600, now).map(|_| ())
}

fn grant_oracle(client: &mut PaymentProcessor, admin: &Vec<u8>) -> Vec<u8> {
    let oracle = bs("GORACLE");
    client.payment_grant_role(admin, role_oracle(), oracle.clone()).unwrap();
    oracle
}

#[test]
fn test_create_payment() {
    let (admin, mut client) = setup_payment_processor();

    let payment_id = bs("payment_123");
    let merchant_id = bs("GMERCHANT");
    let amount = 1000000000i128; // 1000 USDC (6 decimals)
    let currency = bs("USDC");
    let deposit_address = bs("GDEPOSIT");
    client.payment_grant_role(&admin, role_merchant(), merchant_id.clone()).unwrap();

    let payment = client
        .create_payment(payment_id.clone(), merchant_id.clone(), amount, currency.clone(), deposit_address.clone(), 3600, 0)
        .unwrap();
    assert_eq!(&payment, client.get_payment(&payment_id).unwrap());

    assert_eq!(payment.payment_id, payment_id);
    assert_eq!(payment.merchant_id, merchant_id);
    assert_eq!(payment.amount, amount);
    assert_eq!(payment.currency, currency);
    assert_eq!(payment.deposit_address, deposit_address);
    assert_eq!(payment.status, PaymentStatus::Pending);
    assert_eq!(payment.memo, None);
    assert_eq!(payment.memo_type, None);
}

#[test]
fn test_verify_payment_success() {
    let (admin, mut client) = setup_payment_processor();

    let payment_id = bs("payment_123");
    let merchant_id = bs("GMERCHANT");
    let amount = 1000000000i128;
    client.payment_grant_role(&admin, role_merchant(), merchant_id.clone()).unwrap();

    create_at(&mut client, &payment_id, &merchant_id, amount, &bs("GDEPOSIT"), 0).unwrap();

    let payer_address = bs("GPAYER");
    let transaction_hash = vec![9u8; 32];
    let oracle = grant_oracle(&mut client, &admin);

    let status = client
        .verify_payment(&oracle, &payment_id, transaction_hash, payer_address, amount, 6, 0)
        .unwrap();

    assert_eq!(status, PaymentStatus::Confirmed);
    let payment = client.get_payment(&payment_id).unwrap();
    assert_eq!(payment.status, PaymentStatus::Confirmed);
    assert_eq!(payment.amount_received, Some(amount));
}

#[test]
fn test_get_merchant_payments_index_and_pagination() {
    let (admin, mut client) = setup_payment_processor();

    let merchant_id = bs("GMERCHANT");
    let deposit = bs("GDEPOSIT");

    let payment_id_1 = bs("merchant_pay_1");
    let payment_id_2 = bs("merchant_pay_2");
    let payment_id_3 = bs("merchant_pay_3");

    client.payment_grant_role(&admin, role_merchant(), merchant_id.clone()).unwrap();
    create_at(&mut client, &payment_id_1, &merchant_id, 100i128, &deposit, 0).unwrap();
    create_at(&mut client, &payment_id_2, &merchant_id, 200i128, &deposit, 0).unwrap();
    create_at(&mut client, &payment_id_3, &merchant_id, 300i128, &deposit, 0).unwrap();

    let all = client.get_merchant_payments(&merchant_id);
    assert_eq!(all.len(), 3);
    assert_eq!(all.get(0), Some(&payment_id_1));
    assert_eq!(all.get(1), Some(&payment_id_2));
    assert_eq!(all.get(2), Some(&payment_id_3));

    let page = client.get_merchant_payments_paginated(&merchant_id, 1u32, 2u32);
    assert_eq!(page.len(), 2);
    assert_eq!(page.get(0), Some(&payment_id_2));
    assert_eq!(page.get(1), Some(&payment_id_3));
}

#[test]
fn test_cancel_pending_success() {
    let (admin, mut client) = setup_payment_processor();

    let payment_id = bs("cancel_pending_success");
    let merchant_id = bs("GMERCHANT");
    let expires_at = 3600u64;
    client.payment_grant_role(&admin, role_merchant(), merchant_id.clone()).unwrap();

    create_at(&mut client, &payment_id, &merchant_id, 500i128, &bs("GDEPOSIT"), 0).unwrap();

    // Set time to before expiry
    client.cancel_payment(&merchant_id, &payment_id, expires_at - 1).unwrap();

    let payment = client.get_payment(&payment_id).unwrap();
    assert_eq!(payment.status, PaymentStatus::Failed);
}

#[test]
fn test_cancel_fails_when_confirmed() {
    let (admin, mut client) = setup_payment_processor();

    let payment_id = bs("cancel_fails_confirmed");
    let merchant_id = bs("GMERCHANT");
    let amount = 500i128;
    client.payment_grant_role(&admin, role_merchant(), merchant_id.clone()).unwrap();

    create_at(&mut client, &payment_id, &merchant_id, amount, &bs("GDEPOSIT"), 0).unwrap();

    let oracle = grant_oracle(&mut client, &admin);
    client.verify_payment(&oracle, &payment_id, vec![1u8; 32], bs("GPAYER"), amount, 6, 0).unwrap();

    let res = client.cancel_payment(&merchant_id, &payment_id, 0);
    assert_eq!(res.unwrap_err(), FluxaError::PaymentAlreadyProcessed);
}

#[test]
fn test_expiry_logic() {
    let (admin, mut client) = setup_payment_processor();

    let payment_id = bs("cancel_past_expiry");
    let merchant_id = bs("GMERCHANT");
    let expires_at = 3600u64;
    client.payment_grant_role(&admin, role_merchant(), merchant_id.clone()).unwrap();

    create_at(&mut client, &payment_id, &merchant_id, 500i128, &bs("GDEPOSIT"), 0).unwrap();

    // Set time to past expiry: this should mark it Expired, not throw an error
    let res = client.cancel_payment(&merchant_id, &payment_id, expires_at + 1);
    assert!(res.is_ok());

    let payment = client.get_payment(&payment_id).unwrap();
    assert_eq!(payment.status, PaymentStatus::Expired);
}

#[test]
fn test_unauthorized_cancel() {
    let (admin, mut client) = setup_payment_processor();

    let payment_id = bs("unauth_cancel");
    let merchant_id = bs("GMERCHANT");
    client.payment_grant_role(&admin, role_merchant(), merchant_id.clone()).unwrap();

    create_at(&mut client, &payment_id, &merchant_id, 500i128, &bs("GDEPOSIT"), 0).unwrap();

    let random_addr = bs("GRANDOM");
    let res = client.cancel_payment(&random_addr, &payment_id, 0);
    assert_eq!(res.unwrap_err(), FluxaError::Unauthorized);
}

#[test]
fn test_expire_payment_after_deadline() {
    let (admin, mut client) = setup_payment_processor();

    let payment_id = bs("expire_after_deadline");
    let merchant_id = bs("GMERCHANT");
    let expires_at = 10u64;
    client.payment_grant_role(&admin, role_merchant(), merchant_id.clone()).unwrap();

    client
        .create_payment(payment_id.clone(), merchant_id.clone(), 500i128, bs("USDC"), bs("GDEPOSIT"), expires_at, 0)
        .unwrap();

    client.expire_payment(&payment_id, expires_at + 1).unwrap();

    let payment = client.get_payment(&payment_id).unwrap();
    assert_eq!(payment.status, PaymentStatus::Expired);
}

#[test]
fn test_subscription_added_to_active_index_on_subscribe() {
}

// ---- further cases ----

#[test]
fn create_payment_errors() {
    let (_admin, mut client) = setup_payment_processor();
    let merchant = bs("GMERCHANT");
    let deposit = bs("GDEPOSIT");
    assert_eq!(create_at(&mut client, &bs("p"), &merchant, 0, &deposit, 0), Err(FluxaError::InvalidAmount));
    assert_eq!(create_at(&mut client, &bs(""), &merchant, 5, &deposit, 0), Err(FluxaError::InvalidPaymentId));
    create_at(&mut client, &bs("p"), &merchant, 5, &deposit, 0).unwrap();
    assert_eq!(create_at(&mut client, &bs("p"), &merchant, 6, &deposit, 0), Err(FluxaError::PaymentAlreadyExists));
    assert_eq!(client.get_payment(&bs("p")).unwrap().amount, 5);
    assert_eq!(client.get_payment(&bs("q")).err(), Some(FluxaError::PaymentNotFound));
}

#[test]
fn verify_payment_outcomes() {
    let (admin, mut client) = setup_payment_processor();
    let merchant = bs("GMERCHANT");
    create_at(&mut client, &bs("p1"), &merchant, 100, &bs("GD"), 0).unwrap();
    create_at(&mut client, &bs("p2"), &merchant, 100, &bs("GD"), 0).unwrap();
    // Nobody may verify before being granted a role.
    assert_eq!(
        client.verify_payment(&bs("GORACLE"), &bs("p1"), vec![0u8; 32], bs("GPAYER"), 100, 6, 0),
        Err(FluxaError::Unauthorized)
    );
    let oracle = grant_oracle(&mut client, &admin);
    // Two units short is beyond the tolerance of a six-decimal token: partially
    // paid, with what arrived recorded and no payer or confirmation time.
    assert_eq!(
        client.verify_payment(&oracle, &bs("p1"), vec![0u8; 32], bs("GPAYER"), 98, 6, 10),
        Ok(PaymentStatus::PartiallyPaid)
    );
    let p1 = client.get_payment(&bs("p1")).unwrap();
    assert_eq!(p1.status, PaymentStatus::PartiallyPaid);
    assert_eq!(p1.amount_received, Some(98));
    assert_eq!(p1.payer_address, None);
    assert_eq!(p1.confirmed_at, None);
    // A partially paid payment is no longer pending.
    assert_eq!(
        client.verify_payment(&oracle, &bs("p1"), vec![0u8; 32], bs("GPAYER"), 100, 6, 10),
        Err(FluxaError::PaymentAlreadyProcessed)
    );
    // Too late.
    assert_eq!(
        client.verify_payment(&oracle, &bs("p2"), vec![0u8; 32], bs("GPAYER"), 100, 6, 3601),
        Err(FluxaError::PaymentExpired)
    );
    // Exactly at the expiry time is still in time.
    assert_eq!(
        client.verify_payment(&oracle, &bs("p2"), vec![7u8; 32], bs("GPAYER"), 100, 6, 3600),
        Ok(PaymentStatus::Confirmed)
    );
    let p2 = client.get_payment(&bs("p2")).unwrap();
    assert_eq!(p2.confirmed_at, Some(3600));
    assert_eq!(p2.payer_address, Some(bs("GPAYER")));
    assert_eq!(p2.transaction_hash, Some(vec![7u8; 32]));
    assert_eq!(
        client.verify_payment(&oracle, &bs("nope"), vec![0u8; 32], bs("GPAYER"), 100, 6, 0),
        Err(FluxaError::PaymentNotFound)
    );
}

/// A payment of `amount` created at time 0 and an oracle that may verify it.
fn pending_payment(payment_id: &str, amount: i128) -> (Vec<u8>, PaymentProcessor) {
    let (admin, mut client) = setup_payment_processor();
    let merchant_id = bs("GMERCHANT");
    client.payment_grant_role(&admin, role_merchant(), merchant_id.clone()).unwrap();
    create_at(&mut client, &bs(payment_id), &merchant_id, amount, &bs("GDEPOSIT"), 0).unwrap();
    let oracle = grant_oracle(&mut client, &admin);
    (oracle, client)
}

#[test]
fn test_verify_payment_partially_paid() {
    let amount = 1000000000i128;
    let (oracle, mut client) = pending_payment("partial_pay", amount);
    let amount_received = amount - 100;
    let status = client
        .verify_payment(&oracle, &bs("partial_pay"), vec![3u8; 32], bs("GPAYER"), amount_received, 6, 0)
        .unwrap();
    assert_eq!(status, PaymentStatus::PartiallyPaid);
    let payment = client.get_payment(&bs("partial_pay")).unwrap();
    assert_eq!(payment.status, PaymentStatus::PartiallyPaid);
    assert_eq!(payment.amount_received, Some(amount_received));
}

#[test]
fn test_verify_payment_overpaid() {
    let amount = 1000000000i128;
    let (oracle, mut client) = pending_payment("over_pay", amount);
    let amount_received = amount + 100;
    let status = client
        .verify_payment(&oracle, &bs("over_pay"), vec![3u8; 32], bs("GPAYER"), amount_received, 6, 0)
        .unwrap();
    assert_eq!(status, PaymentStatus::Overpaid);
    let payment = client.get_payment(&bs("over_pay")).unwrap();
    assert_eq!(payment.status, PaymentStatus::Overpaid);
    assert_eq!(payment.amount_received, Some(amount_received));
}

#[test]
fn test_verify_payment_within_tolerance() {
    let amount = 1000000000i128;
    let (oracle, mut client) = pending_payment("tol_pay", amount);
    let amount_received = amount - 1;
    let status = client
        .verify_payment(&oracle, &bs("tol_pay"), vec![3u8; 32], bs("GPAYER"), amount_received, 6, 0)
        .unwrap();
    assert_eq!(status, PaymentStatus::Confirmed);
    let payment = client.get_payment(&bs("tol_pay")).unwrap();
    assert_eq!(payment.status, PaymentStatus::Confirmed);
    assert_eq!(payment.amount_received, Some(amount_received));
}

#[test]
fn test_verify_payment_decimal_aware_tolerance_7_decimals() {
    let amount = 10_000_000_i128;
    let (oracle, mut client) = pending_payment("pay_7dec", amount);
    let status = client
        .verify_payment(&oracle, &bs("pay_7dec"), vec![3u8; 32], bs("GPAYER"), amount - 10, 7, 0)
        .unwrap();
    assert_eq!(status, PaymentStatus::Confirmed);
}

#[test]
fn test_verify_payment_decimal_aware_tolerance_7_decimals_overpay() {
    let amount = 10_000_000_i128;
    let (oracle, mut client) = pending_payment("pay_7dec_partial", amount);
    let status = client
        .verify_payment(&oracle, &bs("pay_7dec_partial"), vec![3u8; 32], bs("GPAYER"), amount - 11, 7, 0)
        .unwrap();
    assert_eq!(status, PaymentStatus::PartiallyPaid);
}

#[test]
fn tolerance_grows_with_token_decimals() {
    // Nine decimals: the tolerance is a thousand units.
    let (oracle, mut client) = pending_payment("p9", 1_000_000_000);
    assert_eq!(
        client.verify_payment(&oracle, &bs("p9"), vec![3u8; 32], bs("GPAYER"), 1_000_001_000, 9, 0),
        Ok(PaymentStatus::Confirmed)
    );
    let (oracle, mut client) = pending_payment("p9b", 1_000_000_000);
    assert_eq!(
        client.verify_payment(&oracle, &bs("p9b"), vec![3u8; 32], bs("GPAYER"), 1_000_001_001, 9, 0),
        Ok(PaymentStatus::Overpaid)
    );
    // Zero decimals: one unit.
    let (oracle, mut client) = pending_payment("p0", 50);
    assert_eq!(
        client.verify_payment(&oracle, &bs("p0"), vec![3u8; 32], bs("GPAYER"), 49, 0, 0),
        Ok(PaymentStatus::Confirmed)
    );
}

#[test]
fn test_create_payment_past_expires_at_fails() {
    let (admin, mut client) = setup_payment_processor();
    let merchant_id = bs("GMERCHANT");
    client.payment_grant_role(&admin, role_merchant(), merchant_id.clone()).unwrap();
    let now = 500u64;
    let result = client.create_payment(bs("pay_past_expiry"), merchant_id.clone(), 1000, bs("USDC"), bs("GD"), now, now);
    assert_eq!(result.err(), Some(FluxaError::InvalidExpiry));
    let result = client.create_payment(bs("pay_past_expiry"), merchant_id, 1000, bs("USDC"), bs("GD"), now - 1, now);
    assert_eq!(result.err(), Some(FluxaError::InvalidExpiry));
    assert_eq!(client.get_payment(&bs("pay_past_expiry")).err(), Some(FluxaError::PaymentNotFound));
}

#[test]
fn test_initialize_payment_processor_rejects_zero_admin() {
    let mut client = PaymentProcessor::new();
    let zero = bs("CAAAAAAAAAAAAAAAAAAAAAAAAAAAAAAAAAAAAAAAAAAAAAAAAAAABSC4");
    assert_eq!(client.initialize_payment_processor(zero), Err(FluxaError::InvalidAddress));
    assert_eq!(client.access.get_admin(), None);
}

#[test]
fn settle_follows_confirmation() {
    let (admin, mut client) = setup_payment_processor();
    let merchant = bs("GMERCHANT");
    let operator = bs("GSETTLER");
    create_at(&mut client, &bs("p"), &merchant, 100, &bs("GD"), 0).unwrap();
    assert_eq!(client.settle_payment(&operator, &bs("p"), bs("GTREASURY")), Err(FluxaError::Unauthorized));
    client.payment_grant_role(&admin, role_settlement_operator(), operator.clone()).unwrap();
    // A pending payment cannot be settled.
    assert_eq!(client.settle_payment(&operator, &bs("p"), bs("GTREASURY")), Err(FluxaError::PaymentAlreadyProcessed));
    // The settlement operator may also verify.
    client.verify_payment(&operator, &bs("p"), vec![0u8; 32], bs("GPAYER"), 100, 6, 0).unwrap();
    client.settle_payment(&operator, &bs("p"), bs("GTREASURY")).unwrap();
    let p = client.get_payment(&bs("p")).unwrap();
    assert_eq!(p.status, PaymentStatus::Settled);
    assert_eq!(p.deposit_address, bs("GTREASURY"));
    // Settled is final.
    assert_eq!(client.settle_payment(&operator, &bs("p"), bs("GTREASURY")), Err(FluxaError::PaymentAlreadyProcessed));
    assert_eq!(client.cancel_payment(&merchant, &bs("p"), 0), Err(FluxaError::PaymentAlreadyProcessed));
    assert_eq!(client.expire_payment(&bs("p"), 9999), Err(FluxaError::PaymentAlreadyProcessed));
}

#[test]
fn test_settle_payment_reentrancy_guard_normal_flow() {
    let (oracle, mut client) = pending_payment("settle_reentrancy_1", 1000);
    client.verify_payment(&oracle, &bs("settle_reentrancy_1"), vec![5u8; 32], bs("GPAYER"), 1000, 6, 0).unwrap();
    let operator = bs("GSETTLER");
    let admin = bs("GADMIN");
    client.payment_grant_role(&admin, role_settlement_operator(), operator.clone()).unwrap();
    client.settle_payment(&operator, &bs("settle_reentrancy_1"), bs("GRECIPIENT")).unwrap();
    let payment = client.get_payment(&bs("settle_reentrancy_1")).unwrap();
    assert_eq!(payment.status, PaymentStatus::Settled);
}

#[test]
fn expire_before_deadline_is_refused() {
    let (_admin, mut client) = setup_payment_processor();
    create_at(&mut client, &bs("p"), &bs("GM"), 100, &bs("GD"), 0).unwrap();
    assert_eq!(client.expire_payment(&bs("p"), 3600), Err(FluxaError::Unauthorized));
    assert_eq!(client.expire_payment(&bs("q"), 3600), Err(FluxaError::PaymentNotFound));
    assert_eq!(client.get_payment(&bs("p")).unwrap().status, PaymentStatus::Pending);
}

#[test]
fn oracle_may_cancel_for_the_merchant() {
    let (admin, mut client) = setup_payment_processor();
    create_at(&mut client, &bs("p"), &bs("GM"), 100, &bs("GD"), 0).unwrap();
    let oracle = grant_oracle(&mut client, &admin);
    client.cancel_payment(&oracle, &bs("p"), 0).unwrap();
    assert_eq!(client.get_payment(&bs("p")).unwrap().status, PaymentStatus::Failed);
    assert_eq!(client.cancel_payment(&oracle, &bs("zz"), 0), Err(FluxaError::PaymentNotFound));
}

#[test]
fn pagination_edges() {
    let (_admin, mut client) = setup_payment_processor();
    let merchant = bs("GM");
    for i in 0..5u8 {
        create_at(&mut client, &vec![b'p', b'0' + i], &merchant, 1, &bs("GD"), 0).unwrap();
    }
    assert!(client.get_merchant_payments_paginated(&merchant, 0, 0).is_empty());
    assert!(client.get_merchant_payments_paginated(&merchant, 5, 3).is_empty());
    assert_eq!(client.get_merchant_payments_paginated(&merchant, 3, 10), vec![bs("p3"), bs("p4")]);
    assert_eq!(client.get_merchant_payments_paginated(&merchant, u32::MAX, u32::MAX).len(), 0);
    assert!(client.get_merchant_payments(&bs("GOTHER")).is_empty());
}

#[test]
fn storage_lifetimes() {
    assert_eq!(payment_ttl(&PaymentStatus::Pending), SHORT_LIVE_TTL);
    assert_eq!(payment_ttl(&PaymentStatus::Confirmed), LONG_LIVE_TTL);
    assert_eq!(payment_ttl(&PaymentStatus::Settled), LONG_LIVE_TTL);
    assert_eq!(payment_ttl(&PaymentStatus::Failed), LONG_LIVE_TTL);
    assert_eq!(payment_ttl(&PaymentStatus::Expired), LONG_LIVE_TTL);
    assert_eq!(payment_ttl(&PaymentStatus::PartiallyPaid), LONG_LIVE_TTL);
    assert_eq!(payment_ttl(&PaymentStatus::Overpaid), LONG_LIVE_TTL);
    assert_eq!(bump_threshold(SHORT_LIVE_TTL), 24_192);
    assert_eq!(bump_threshold(LONG_LIVE_TTL), 3_784_320);
    assert_eq!(bump_threshold(3), 1);
}

#[test]
fn identifiers_are_prefix_and_decimal() {
    assert_eq!(format_id(b"refund_", 1), bs("refund_1"));
    assert_eq!(format_id(b"dispute_", 0), bs("dispute_0"));
    assert_eq!(format_id(b"lnk_pay_", 18446744073709551615), bs("lnk_pay_18446744073709551615"));
    let long_prefix = vec![b'x'; 60];
    let id = format_id(&long_prefix, 123456);
    assert_eq!(id.len(), 64);
    assert_eq!(&id[60..], b"1234");
}

use fluxapay::access_control::role_oracle;
use fluxapay::fx_oracle::FXOracle;
use fluxapay::payment_link::{
    convert_fiat, Error, FiatConfig, LinkUse, MaybeFiatConfig, OracleQuote, PaymentLinkManager,
};

fn s(x: &str) -> Vec<u8> {
    x.as_bytes().to_vec()
}

const CONTRACT: &str = "CLINKMANAGER";

fn setup_payment_link() -> (Vec<u8>, PaymentLinkManager) {
    let mut client = PaymentLinkManager::new();
    let admin = s("GADMIN");
    client.initialize(admin);
    (s("GMERCHANT"), client)
}

fn create(
    client: &mut PaymentLinkManager,
    merchant: &Vec<u8>,
    link_id: &str,
    amount: Option<i128>,
    description: &str,
    expires_at: Option<u64>,
    max_uses: Option<u32>,
    direct_transfer: bool,
    metadata: Option<Vec<(Vec<u8>, Vec<u8>)>>,
    fiat: MaybeFiatConfig,
) -> Result<Vec<u8>, Error> {
    client.create_link(
        merchant,
        s(link_id),
        amount,
        s("USDC"),
        s(description),
        expires_at,
        max_uses,
        direct_transfer,
        metadata,
        fiat,
    )
}

fn use_at(
    client: &mut PaymentLinkManager,
    payer: &Vec<u8>,
    link_id: &str,
    amount: i128,
    usdc_token: Option<Vec<u8>>,
    quote: Option<OracleQuote>,
    now: u64,
) -> Result<LinkUse, Error> {
    client.use_link(payer, &s(link_id), amount, &usdc_token, quote, now, &s(CONTRACT))
}

/// An oracle with `rate` (at `decimals`) published for USD at time zero.
fn oracle_with_usd_rate(rate: i128, decimals: u32) -> (Vec<u8>, FXOracle) {
    let mut oracle_client = FXOracle::new();
    let oracle_admin = s("GORACLEADMIN");
    oracle_client.oracle_initialize(oracle_admin.clone(), 86400);
    let oracle = s("GORACLE");
    oracle_client.oracle_grant_role(&oracle_admin, role_oracle(), oracle.clone()).unwrap();
    oracle_client.set_rate(&oracle, s("USD"), rate, decimals, 0, 0).unwrap();
    (s("CORACLE"), oracle_client)
}

/// The quote the link's oracle gives, as the host would fetch it.
fn fetch_quote(client: &PaymentLinkManager, oracle: &FXOracle, link_id: &str, now: u64) -> Option<OracleQuote> {
    match client.quote_needed(&s(link_id), now) {
        None => None,
        Some((_oracle_address, currency)) => match oracle.get_rate(&currency, now, 0) {
            Ok(rd) => Some(OracleQuote { rate: rd.rate, decimals: rd.decimals }),
            Err(_) => None,
        },
    }
}

fn keys(n: usize) -> Vec<String> {
    (0..n).map(|i| format!("k{}", i)).collect()
}

#[test]
fn test_create_link() {
    let (merchant, mut client) = setup_payment_link();

    let link_id = s("link_123");
    let amount = Some(1000i128);

    let id = create(&mut client, &merchant, "link_123", amount, "Test Link", None, None, false, None, MaybeFiatConfig::NoFiat).unwrap();

    assert_eq!(id, link_id);
    let link = client.get_link(&link_id).unwrap();
    assert_eq!(link.merchant_id, merchant);
    assert_eq!(link.amount, amount);
    assert!(link.active);
    assert!(!link.direct_transfer);
}

#[test]
fn test_use_link_fixed_amount() {
    let (merchant, mut client) = setup_payment_link();
    let payer = s("GPAYER");

    let amount = 1000i128;
    create(&mut client, &merchant, "fixed_link", Some(amount), "Fixed", None, None, false, None, MaybeFiatConfig::NoFiat).unwrap();

    let used = use_at(&mut client, &payer, "fixed_link", amount, None, None, 0).unwrap();
    assert!(!used.payment_id.is_empty());

    let link = client.get_link(&s("fixed_link")).unwrap();
    assert_eq!(link.use_count, 1);
}

#[test]
#[should_panic(expected = "InvalidAmount")]
fn test_use_link_wrong_amount() {
    let (merchant, mut client) = setup_payment_link();
    let payer = s("GPAYER");

    create(&mut client, &merchant, "fixed_link_wrong", Some(1000i128), "Fixed", None, None, false, None, MaybeFiatConfig::NoFiat).unwrap();

    use_at(&mut client, &payer, "fixed_link_wrong", 500i128, None, None, 0).unwrap();
}

#[test]
fn test_use_link_open_amount() {
    let (merchant, mut client) = setup_payment_link();
    let payer = s("GPAYER");

    create(&mut client, &merchant, "open_link", None, "Open", None, None, false, None, MaybeFiatConfig::NoFiat).unwrap();

    use_at(&mut client, &payer, "open_link", 1500i128, None, None, 0).unwrap();
    let link = client.get_link(&s("open_link")).unwrap();
    assert_eq!(link.use_count, 1);
}

#[test]
fn test_deactivate_link() {
    let (merchant, mut client) = setup_payment_link();

    create(&mut client, &merchant, "deactivate_me", None, "Bye", None, None, false, None, MaybeFiatConfig::NoFiat).unwrap();

    client.deactivate_link(&merchant, &s("deactivate_me")).unwrap();
    let link = client.get_link(&s("deactivate_me")).unwrap();
    assert!(!link.active);
}

#[test]
#[should_panic(expected = "PaymentExpired")]
fn test_link_expired() {
    let (merchant, mut client) = setup_payment_link();
    let payer = s("GPAYER");

    let expiry = 1000u64;
    create(&mut client, &merchant, "expired_link", None, "Old", Some(expiry), None, false, None, MaybeFiatConfig::NoFiat).unwrap();

    use_at(&mut client, &payer, "expired_link", 100i128, None, None, expiry + 1).unwrap();
}

#[test]
fn test_verify_batch_returns_status_for_active_links() {
    let (merchant, mut client) = setup_payment_link();

    let link_id1 = s("batch_link_1");
    let link_id2 = s("batch_link_2");

    create(&mut client, &merchant, "batch_link_1", Some(500i128), "Batch 1", None, None, false, None, MaybeFiatConfig::NoFiat).unwrap();
    create(&mut client, &merchant, "batch_link_2", Some(1000i128), "Batch 2", None, None, false, None, MaybeFiatConfig::NoFiat).unwrap();

    let results = client.verify_batch(&vec![link_id1.clone(), link_id2.clone()]);
    assert_eq!(results.len(), 2);
    assert_eq!(results[0], (link_id1.clone(), true, 0, None));
    assert_eq!(results[1], (link_id2.clone(), true, 0, None));
}

#[test]
fn test_verify_batch_handles_missing_links() {
    let (merchant, mut client) = setup_payment_link();

    let existing_link = s("existing_batch_link");
    let missing_link = s("missing_batch_link");

    create(&mut client, &merchant, "existing_batch_link", Some(1000i128), "Existing", None, None, false, None, MaybeFiatConfig::NoFiat).unwrap();

    let results = client.verify_batch(&vec![existing_link.clone(), missing_link.clone()]);
    assert_eq!(results.len(), 2);
    assert_eq!(results[0], (existing_link.clone(), true, 0, None));
    assert_eq!(results[1], (missing_link.clone(), false, 0, None));
}

#[test]
fn test_verify_batch_returns_inactive_for_deactivated_link() {
    let (merchant, mut client) = setup_payment_link();

    let link_id = s("deactivated_batch_link");
    create(&mut client, &merchant, "deactivated_batch_link", Some(1000i128), "Deactivated", None, Some(10), false, None, MaybeFiatConfig::NoFiat).unwrap();

    client.deactivate_link(&merchant, &link_id).unwrap();

    let results = client.verify_batch(&vec![link_id.clone()]);
    assert_eq!(results.len(), 1);
    assert_eq!(results[0], (link_id.clone(), false, 0, Some(10)));
}

#[test]
fn test_verify_batch_empty_input_returns_empty_vec() {
    let (_merchant, client) = setup_payment_link();

    let results = client.verify_batch(&vec![]);
    assert!(results.is_empty());
}

#[test]
#[should_panic(expected = "PaymentAlreadyProcessed")]
fn test_max_uses() {
    let (merchant, mut client) = setup_payment_link();
    let payer = s("GPAYER");

    create(&mut client, &merchant, "limited_link", None, "Limit", None, Some(1), false, None, MaybeFiatConfig::NoFiat).unwrap();

    use_at(&mut client, &payer, "limited_link", 100i128, None, None, 0).unwrap();
    // Should fail on second use
    use_at(&mut client, &payer, "limited_link", 100i128, None, None, 0).unwrap();
}

#[test]
fn test_direct_transfer_link_transfers_to_merchant() {
    let usdc_token = s("CUSDC");
    let (merchant, mut client) = setup_payment_link();
    let payer = s("GPAYER");

    let amount = 1000i128;
    create(&mut client, &merchant, "direct_link", Some(amount), "Direct", None, None, true, None, MaybeFiatConfig::NoFiat).unwrap();

    let link = client.get_link(&s("direct_link")).unwrap();
    assert!(link.direct_transfer);

    let used = use_at(&mut client, &payer, "direct_link", amount, Some(usdc_token.clone()), None, 0).unwrap();

    // The transfer handed back moves exactly `amount` of the token to the merchant.
    let transfer = used.direct_transfer.unwrap();
    assert_eq!(transfer.token, usdc_token);
    assert_eq!(transfer.to, merchant);
    assert_eq!(transfer.amount, amount);
}

#[test]
#[should_panic(expected = "Unauthorized")]
fn test_direct_transfer_without_token_address_fails() {
    let (merchant, mut client) = setup_payment_link();
    let payer = s("GPAYER");

    create(&mut client, &merchant, "direct_no_token", Some(500i128), "Direct no token", None, None, true, None, MaybeFiatConfig::NoFiat).unwrap();

    // Should fail because usdc_token is None but direct_transfer is true
    use_at(&mut client, &payer, "direct_no_token", 500i128, None, None, 0).unwrap();
}

#[test]
#[should_panic(expected = "MetadataTooLarge")]
fn test_metadata_too_large_21_keys() {
    let (merchant, mut client) = setup_payment_link();

    let metadata: Vec<(Vec<u8>, Vec<u8>)> = keys(21).iter().map(|k| (s(k), s("v"))).collect();

    create(&mut client, &merchant, "meta_large", None, "Meta Test", None, None, false, Some(metadata), MaybeFiatConfig::NoFiat).unwrap();
}

#[test]
#[should_panic(expected = "MetadataValueTooLong")]
fn test_metadata_value_too_long_257_chars() {
    let (merchant, mut client) = setup_payment_link();

    let long_value = "x".repeat(257);
    let metadata = vec![(s("key"), s(&long_value))];

    create(&mut client, &merchant, "meta_long", None, "Meta Test", None, None, false, Some(metadata), MaybeFiatConfig::NoFiat).unwrap();
}

#[test]
fn test_metadata_20_keys_256_char_values_succeeds() {
    let (merchant, mut client) = setup_payment_link();

    let link_id = s("meta_valid");
    let val256 = "x".repeat(256);
    let metadata: Vec<(Vec<u8>, Vec<u8>)> = keys(20).iter().map(|k| (s(k), s(&val256))).collect();

    let id = create(&mut client, &merchant, "meta_valid", None, "Meta Test", None, None, false, Some(metadata), MaybeFiatConfig::NoFiat).unwrap();

    assert_eq!(id, link_id);
    let link = client.get_link(&link_id).unwrap();
    assert!(link.metadata.is_some());
}

#[test]
fn test_metadata_none_succeeds() {
    let (merchant, mut client) = setup_payment_link();

    let link_id = s("meta_none");
    let id = create(&mut client, &merchant, "meta_none", None, "Meta Test", None, None, false, None, MaybeFiatConfig::NoFiat).unwrap();

    assert_eq!(id, link_id);
    let link = client.get_link(&link_id).unwrap();
    assert!(link.metadata.is_none());
}

#[test]
fn test_create_fiat_link_and_use_with_rate() {
    // Rate: 1.0 USD per USDC (rate = 1_0000000, 7 decimals)
    let (oracle_id, _oracle) = oracle_with_usd_rate(1_0000000i128, 7);

    let (merchant, mut client) = setup_payment_link();

    let link_id = s("fiat_link");
    let fiat = FiatConfig { amount: 100i128, currency: s("USD"), oracle: oracle_id.clone() };

    let id = create(&mut client, &merchant, "fiat_link", None, "Fiat Invoice", None, None, false, None, MaybeFiatConfig::Fiat(fiat)).unwrap();

    assert_eq!(id, link_id);
    let link = client.get_link(&link_id).unwrap();
    let stored_fiat = link.fiat.as_option().unwrap();
    assert_eq!(stored_fiat.amount, 100);
    assert_eq!(stored_fiat.currency, s("USD"));
    assert_eq!(stored_fiat.oracle, oracle_id);
}

#[test]
fn test_use_fiat_link_requires_correct_usdc() {
    // Rate: 1 USD = 2 USDC
    let (oracle_id, oracle) = oracle_with_usd_rate(2_0000000i128, 7);

    let (merchant, mut client) = setup_payment_link();
    let payer = s("GPAYER");

    // $50 → should require 25 USDC (50/2)
    let fiat = FiatConfig { amount: 50i128, currency: s("USD"), oracle: oracle_id };

    create(&mut client, &merchant, "fiat_use", None, "Fiat Use", None, None, false, None, MaybeFiatConfig::Fiat(fiat)).unwrap();

    // Should succeed with correct USDC equivalent (50 * 10^7 / 2_0000000 = 25)
    let quote = fetch_quote(&client, &oracle, "fiat_use", 0);
    let used = use_at(&mut client, &payer, "fiat_use", 25i128, None, quote, 0).unwrap();
    assert!(!used.payment_id.is_empty());
    let link = client.get_link(&s("fiat_use")).unwrap();
    assert_eq!(link.use_count, 1);
}

#[test]
#[should_panic(expected = "InvalidAmount")]
fn test_use_fiat_link_rejects_wrong_usdc() {
    let (oracle_id, oracle) = oracle_with_usd_rate(1_0000000i128, 7);

    let (merchant, mut client) = setup_payment_link();
    let payer = s("GPAYER");

    // $100 → should require 100 USDC (rate 1.0)
    let fiat = FiatConfig { amount: 100i128, currency: s("USD"), oracle: oracle_id };

    create(&mut client, &merchant, "fiat_wrong", None, "Fiat Wrong", None, None, false, None, MaybeFiatConfig::Fiat(fiat)).unwrap();

    // 50 USDC is wrong when fiat_amount=100 at rate=1
    let quote = fetch_quote(&client, &oracle, "fiat_wrong", 0);
    use_at(&mut client, &payer, "fiat_wrong", 50i128, None, quote, 0).unwrap();
}

// ---- further cases ----

#[test]
fn link_use_records_a_pending_payment() {
    let (merchant, mut client) = setup_payment_link();
    let payer = s("GPAYER");
    let mut meta = Vec::new();
    meta.push((s("order"), s("42")));
    create(&mut client, &merchant, "rec", Some(700), "Rec", None, None, false, Some(meta.clone()), MaybeFiatConfig::NoFiat).unwrap();
    let used = use_at(&mut client, &payer, "rec", 700, Some(s("CUSDC")), None, 1234).unwrap();
    assert_eq!(used.payment_id, s("lnk_pay_1234"));
    assert_eq!(used.amount, 700);
    assert!(used.direct_transfer.is_none());
    let p = client.get_payment(&used.payment_id).unwrap();
    assert_eq!(p.merchant_id, merchant);
    assert_eq!(p.amount, 700);
    assert_eq!(p.currency, s("USDC"));
    assert_eq!(p.deposit_address, s(CONTRACT));
    assert_eq!(p.status, fluxapay::payments::PaymentStatus::Pending);
    assert_eq!(p.payer_address, Some(payer.clone()));
    assert_eq!(p.created_at, 1234);
    assert_eq!(p.expires_at, 1234 + 3600);
    assert_eq!(p.token_address, Some(s("CUSDC")));
    assert_eq!(p.metadata, Some(meta));
    assert_eq!(client.get_link_payments(&s("rec")), Ok(vec![s("lnk_pay_1234")]));
    assert_eq!(client.get_link_payments(&s("none")), Ok(vec![]));
    assert_eq!(client.get_payment(&s("lnk_pay_1")).err(), Some(Error::PaymentNotFound));
}

#[test]
fn link_payment_expiry_saturates() {
    let (merchant, mut client) = setup_payment_link();
    create(&mut client, &merchant, "late", None, "Late", None, None, false, None, MaybeFiatConfig::NoFiat).unwrap();
    let used = use_at(&mut client, &s("GPAYER"), "late", 5, None, None, u64::MAX - 10).unwrap();
    assert_eq!(client.get_payment(&used.payment_id).unwrap().expires_at, u64::MAX);
}

#[test]
fn link_uses_are_listed_in_order() {
    let (merchant, mut client) = setup_payment_link();
    create(&mut client, &merchant, "multi", None, "Multi", None, Some(3), false, None, MaybeFiatConfig::NoFiat).unwrap();
    for now in [10u64, 20, 30] {
        use_at(&mut client, &s("GPAYER"), "multi", 1, None, None, now).unwrap();
    }
    assert_eq!(
        client.get_link_payments(&s("multi")),
        Ok(vec![s("lnk_pay_10"), s("lnk_pay_20"), s("lnk_pay_30")])
    );
    // The use limit is never exceeded.
    assert_eq!(use_at(&mut client, &s("GPAYER"), "multi", 1, None, None, 40).err(), Some(Error::PaymentAlreadyProcessed));
    assert_eq!(client.get_link(&s("multi")).unwrap().use_count, 3);
}

#[test]
fn deactivated_link_refuses_use() {
    let (merchant, mut client) = setup_payment_link();
    create(&mut client, &merchant, "off", None, "Off", None, None, false, None, MaybeFiatConfig::NoFiat).unwrap();
    assert_eq!(client.deactivate_link(&s("GOTHER"), &s("off")), Err(Error::Unauthorized));
    assert_eq!(client.deactivate_link(&merchant, &s("missing")), Err(Error::PaymentNotFound));
    client.deactivate_link(&merchant, &s("off")).unwrap();
    assert_eq!(use_at(&mut client, &s("GPAYER"), "off", 5, None, None, 0).err(), Some(Error::Unauthorized));
    assert_eq!(client.get_link(&s("off")).unwrap().use_count, 0);
}

#[test]
fn open_link_refuses_non_positive_amounts() {
    let (merchant, mut client) = setup_payment_link();
    create(&mut client, &merchant, "open", None, "Open", None, None, false, None, MaybeFiatConfig::NoFiat).unwrap();
    assert_eq!(use_at(&mut client, &s("GPAYER"), "open", 0, None, None, 0).err(), Some(Error::InvalidAmount));
    assert_eq!(use_at(&mut client, &s("GPAYER"), "open", -3, None, None, 0).err(), Some(Error::InvalidAmount));
    assert_eq!(use_at(&mut client, &s("GPAYER"), "nope", 3, None, None, 0).err(), Some(Error::PaymentNotFound));
}

#[test]
fn link_usable_up_to_expiry_time() {
    let (merchant, mut client) = setup_payment_link();
    create(&mut client, &merchant, "edge", None, "Edge", Some(1000), None, false, None, MaybeFiatConfig::NoFiat).unwrap();
    assert!(use_at(&mut client, &s("GPAYER"), "edge", 5, None, None, 1000).is_ok());
}

#[test]
fn fiat_link_without_fresh_rate_is_refused() {
    let (oracle_id, oracle) = oracle_with_usd_rate(1_0000000i128, 7);
    let (merchant, mut client) = setup_payment_link();
    let fiat = FiatConfig { amount: 10, currency: s("USD"), oracle: oracle_id.clone() };
    create(&mut client, &merchant, "fiat", None, "Fiat", None, None, false, None, MaybeFiatConfig::Fiat(fiat)).unwrap();
    assert_eq!(client.quote_needed(&s("fiat"), 0), Some((oracle_id, s("USD"))));
    // A day and more later the rate is stale: no quote, and the use is refused.
    let quote = fetch_quote(&client, &oracle, "fiat", 86401);
    assert!(quote.is_none());
    assert_eq!(use_at(&mut client, &s("GPAYER"), "fiat", 10, None, quote, 86401).err(), Some(Error::StaleOracleRate));
}

#[test]
fn fiat_link_with_fixed_amount_must_agree() {
    let (oracle_id, oracle) = oracle_with_usd_rate(2_0000000i128, 7);
    let (merchant, mut client) = setup_payment_link();
    let fiat = FiatConfig { amount: 50, currency: s("USD"), oracle: oracle_id };
    create(&mut client, &merchant, "fixed_fiat", Some(30), "F", None, None, false, None, MaybeFiatConfig::Fiat(fiat)).unwrap();
    let quote = fetch_quote(&client, &oracle, "fixed_fiat", 0);
    assert_eq!(quote, Some(OracleQuote { rate: 2_0000000, decimals: 7 }));
    assert_eq!(use_at(&mut client, &s("GPAYER"), "fixed_fiat", 25, None, quote, 0).err(), Some(Error::InvalidAmount));
}

#[test]
fn no_quote_for_plain_or_unusable_links() {
    let (merchant, mut client) = setup_payment_link();
    create(&mut client, &merchant, "plain", None, "P", None, None, false, None, MaybeFiatConfig::NoFiat).unwrap();
    assert_eq!(client.quote_needed(&s("plain"), 0), None);
    assert_eq!(client.quote_needed(&s("missing"), 0), None);
}

#[test]
fn fiat_conversion_rounds_toward_zero() {
    assert_eq!(convert_fiat(50, OracleQuote { rate: 2_0000000, decimals: 7 }), 25);
    assert_eq!(convert_fiat(10, OracleQuote { rate: 3, decimals: 0 }), 3);
    assert_eq!(convert_fiat(-10, OracleQuote { rate: 3, decimals: 0 }), -3);
    assert_eq!(convert_fiat(7, OracleQuote { rate: -2, decimals: 1 }), -35);
    // The scaled amount saturates before the division.
    assert_eq!(convert_fiat(i128::MAX, OracleQuote { rate: 1, decimals: 2 }), i128::MAX);
    assert_eq!(convert_fiat(1, OracleQuote { rate: 1, decimals: 200 }), i128::MAX);
}

#[test]
fn fiat_config_accessors() {
    let cfg = FiatConfig { amount: 3, currency: s("EUR"), oracle: s("CORACLE") };
    let some = MaybeFiatConfig::Fiat(cfg);
    assert_eq!(some.as_option().map(|c| c.amount), Some(3));
    assert_eq!(some.into_option().map(|c| c.currency), Some(s("EUR")));
    assert!(MaybeFiatConfig::NoFiat.as_option().is_none());
    assert!(MaybeFiatConfig::NoFiat.into_option().is_none());
}

#[test]
fn recreating_a_link_replaces_it() {
    let (merchant, mut client) = setup_payment_link();
    create(&mut client, &merchant, "again", Some(1), "A", None, None, false, None, MaybeFiatConfig::NoFiat).unwrap();
    use_at(&mut client, &s("GPAYER"), "again", 1, None, None, 0).unwrap();
    create(&mut client, &merchant, "again", Some(2), "B", None, None, false, None, MaybeFiatConfig::NoFiat).unwrap();
    let link = client.get_link(&s("again")).unwrap();
    assert_eq!(link.amount, Some(2));
    assert_eq!(link.use_count, 0);
    assert_eq!(link.description, s("B"));
}

#[test]
fn upgrade_needs_the_recorded_admin() {
    let (_merchant, client) = setup_payment_link();
    assert_eq!(client.upgrade(&s("GADMIN")), Ok(()));
    assert_eq!(client.upgrade(&s("GX")), Err(Error::Unauthorized));
    assert_eq!(PaymentLinkManager::new().upgrade(&s("GADMIN")), Err(Error::Unauthorized));
}

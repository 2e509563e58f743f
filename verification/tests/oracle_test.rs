use fluxapay::access_control::role_oracle;
use fluxapay::fx_oracle::{FXOracle, FXOracleError, MAX_LEDGER_GAP, MAX_RATE_AGE_SECS};
use fluxapay::mock_dex_router::{configure_mock_dex, MockDexError, MockDexRouter};

fn sym(x: &str) -> Vec<u8> {
    x.as_bytes().to_vec()
}

fn oracle_setup(threshold: u64) -> (Vec<u8>, Vec<u8>, FXOracle) {
    let mut o = FXOracle::new();
    let admin = sym("GADMIN");
    o.oracle_initialize(admin.clone(), threshold);
    let feeder = sym("GFEEDER");
    o.oracle_grant_role(&admin, role_oracle(), feeder.clone()).unwrap();
    (admin, feeder, o)
}

#[test]
fn version_is_one() {
    assert_eq!(FXOracle::version(), 1);
    assert_eq!(fluxapay::payment_link::PaymentLinkManager::version(), 1);
}

#[test]
fn only_oracles_set_rates() {
    let (admin, feeder, mut o) = oracle_setup(3600);
    assert_eq!(o.set_rate(&admin, sym("EUR"), 9, 1, 0, 0), Err(FXOracleError::Unauthorized));
    assert_eq!(o.get_rate(&sym("EUR"), 0, 0).err(), Some(FXOracleError::RateNotFound));
    o.set_rate(&feeder, sym("EUR"), 92, 2, 100, 7).unwrap();
    let r = o.get_rate(&sym("EUR"), 100, 7).unwrap();
    assert_eq!((r.rate, r.decimals, r.updated_at, r.updated_sequence), (92, 2, 100, 7));
    assert!(o.oracle_has_role(&role_oracle(), &feeder));
    assert_eq!(o.get_fx_admin(), Some(admin));
}

#[test]
fn rates_must_be_positive() {
    let (admin, feeder, mut o) = oracle_setup(3600);
    o.set_rate(&feeder, sym("EUR"), 92, 2, 100, 7).unwrap();
    assert_eq!(o.set_rate(&feeder, sym("EUR"), 0, 2, 200, 8), Err(FXOracleError::InvalidRate));
    assert_eq!(o.set_rate(&feeder, sym("EUR"), -5, 2, 200, 8), Err(FXOracleError::InvalidRate));
    // The caller's role is checked first.
    assert_eq!(o.set_rate(&admin, sym("EUR"), 0, 2, 200, 8), Err(FXOracleError::Unauthorized));
    let r = o.get_rate(&sym("EUR"), 100, 7).unwrap();
    assert_eq!((r.rate, r.updated_at), (92, 100));
}

#[test]
fn rates_go_stale_by_time_and_by_ledgers() {
    let (_admin, feeder, mut o) = oracle_setup(3600);
    o.set_rate(&feeder, sym("EUR"), 92, 2, 1000, 50).unwrap();
    assert!(o.get_rate(&sym("EUR"), 1000 + 3600, 50).is_ok());
    assert_eq!(o.get_rate(&sym("EUR"), 1000 + 3601, 50).err(), Some(FXOracleError::RateStale));
    assert!(o.get_rate(&sym("EUR"), 1000, 50 + MAX_LEDGER_GAP).is_ok());
    assert_eq!(o.get_rate(&sym("EUR"), 1000, 50 + MAX_LEDGER_GAP + 1).err(), Some(FXOracleError::RateStale));
    assert!(o.stale_alert(&sym("EUR"), 1000, 50 + MAX_LEDGER_GAP + 1));
    assert!(!o.stale_alert(&sym("EUR"), 1000, 50));
    assert!(!o.stale_alert(&sym("GBP"), 1000, 50));
}

#[test]
fn threshold_is_capped_at_a_day() {
    let (admin, feeder, mut o) = oracle_setup(10 * MAX_RATE_AGE_SECS);
    assert_eq!(o.get_staleness_threshold(), 10 * MAX_RATE_AGE_SECS);
    o.set_rate(&feeder, sym("EUR"), 92, 2, 0, 0).unwrap();
    assert!(o.get_rate(&sym("EUR"), MAX_RATE_AGE_SECS, 0).is_ok());
    assert_eq!(o.get_rate(&sym("EUR"), MAX_RATE_AGE_SECS + 1, 0).err(), Some(FXOracleError::RateStale));
    assert_eq!(o.set_staleness_threshold(&feeder, 5), Err(FXOracleError::Unauthorized));
    o.set_staleness_threshold(&admin, 5).unwrap();
    assert_eq!(o.get_staleness_threshold(), 5);
    assert_eq!(o.get_rate(&sym("EUR"), 6, 0).err(), Some(FXOracleError::RateStale));
}

#[test]
fn settlement_amount_converts_and_truncates() {
    let (_admin, feeder, mut o) = oracle_setup(3600);
    // 0.92 EUR per USDC, two decimals.
    o.set_rate(&feeder, sym("EUR"), 92, 2, 0, 0).unwrap();
    assert_eq!(o.get_settlement_amount(1000, &sym("EUR"), 0, 0), Ok(920));
    assert_eq!(o.get_settlement_amount(1, &sym("EUR"), 0, 0), Ok(0));
    assert_eq!(o.get_settlement_amount(-151, &sym("EUR"), 0, 0), Ok(-138));
    assert_eq!(o.get_settlement_amount(1, &sym("GBP"), 0, 0), Err(FXOracleError::RateNotFound));
    assert_eq!(o.get_settlement_amount(1, &sym("EUR"), 3601, 0), Err(FXOracleError::RateStale));
}

#[test]
fn only_admin_upgrades() {
    let (admin, feeder, o) = oracle_setup(3600);
    assert_eq!(o.upgrade(&admin), Ok(()));
    assert_eq!(o.upgrade(&feeder), Err(FXOracleError::Unauthorized));
}

#[test]
fn mock_dex_quotes_and_swaps() {
    let path = vec![sym("CIN"), sym("COUT")];
    let mut dex = MockDexRouter::new();
    assert_eq!(dex.get_amounts_out(100, &path), vec![100, 100]);
    assert!(dex.get_amounts_out(100, &vec![sym("CIN")]).is_empty());
    assert_eq!(dex.swap_exact_tokens_for_tokens(100, 1, &path, &sym("GTO"), 0), Err(MockDexError::SwapFailed));
    configure_mock_dex(&mut dex, 95, false);
    assert_eq!(dex.get_amounts_out(100, &path), vec![100, 95]);
    assert_eq!(dex.swap_exact_tokens_for_tokens(100, 95, &path, &sym("GTO"), 0), Ok(vec![100, 95]));
    assert_eq!(
        dex.swap_exact_tokens_for_tokens(100, 96, &path, &sym("GTO"), 0),
        Err(MockDexError::InsufficientOutput)
    );
    assert_eq!(
        dex.swap_exact_tokens_for_tokens(100, 1, &vec![sym("CIN")], &sym("GTO"), 0),
        Err(MockDexError::InvalidPath)
    );
    configure_mock_dex(&mut dex, 95, true);
    assert_eq!(dex.swap_exact_tokens_for_tokens(100, 1, &path, &sym("GTO"), 0), Err(MockDexError::SwapFailed));
}

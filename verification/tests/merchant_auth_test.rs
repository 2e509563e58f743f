use fluxapay::merchant_auth::{MerchantAuthError, MerchantPreAuth};

fn addr(x: &str) -> Vec<u8> {
    x.as_bytes().to_vec()
}

fn authorized(limit: i128, period: u64, now: u64) -> (Vec<u8>, Vec<u8>, MerchantPreAuth) {
    let mut auths = MerchantPreAuth::new();
    let customer = addr("GCUSTOMER");
    let merchant = addr("GMERCHANT");
    auths
        .pre_authorize_merchant(customer.clone(), merchant.clone(), addr("CUSDC"), limit, period, now)
        .unwrap();
    (customer, merchant, auths)
}

#[test]
fn pre_authorization_is_stored() {
    let (customer, merchant, auths) = authorized(1000, 30, 5);
    let a = auths.get_authorization(&customer, &merchant).unwrap();
    assert_eq!(a.limit_per_period, 1000);
    assert_eq!(a.period_secs, 30);
    assert_eq!(a.period_start, 5);
    assert_eq!(a.pulled_this_period, 0);
    assert!(a.active);
    assert_eq!(a.created_at, 5);
    assert_eq!(a.token, addr("CUSDC"));
}

#[test]
fn pre_authorization_returns_the_stored_record() {
    let mut auths = MerchantPreAuth::new();
    let granted = auths
        .pre_authorize_merchant(addr("GC"), addr("GM"), addr("CUSDC"), 70, 60, 9)
        .unwrap();
    assert_eq!(&granted, auths.get_authorization(&addr("GC"), &addr("GM")).unwrap());
    assert_eq!(granted.customer, addr("GC"));
    assert_eq!(granted.limit_per_period, 70);
    assert_eq!(granted.period_start, 9);
}

#[test]
fn pre_authorization_errors() {
    let (customer, merchant, mut auths) = authorized(1000, 30, 0);
    assert_eq!(
        auths.pre_authorize_merchant(customer.clone(), merchant.clone(), addr("CUSDC"), 5, 30, 0).err(),
        Some(MerchantAuthError::AuthorizationAlreadyExists)
    );
    assert_eq!(
        auths.pre_authorize_merchant(addr("GX"), merchant.clone(), addr("CUSDC"), 0, 30, 0).err(),
        Some(MerchantAuthError::InvalidAmount)
    );
    assert_eq!(
        auths.pre_authorize_merchant(addr("GX"), merchant.clone(), addr("CUSDC"), 10, 0, 0).err(),
        Some(MerchantAuthError::InvalidAmount)
    );
    assert_eq!(
        auths.get_authorization(&addr("GX"), &merchant).err(),
        Some(MerchantAuthError::AuthorizationNotFound)
    );
}

#[test]
fn pulls_add_up_to_the_limit() {
    let (customer, merchant, mut auths) = authorized(1000, 100, 0);
    assert_eq!(auths.remaining_limit(&customer, &merchant, 10), Ok(1000));
    let p = auths.pull_payment(&merchant, &customer, 600, 10).unwrap();
    assert_eq!(p.pulled_this_period, 600);
    assert_eq!(p.token, addr("CUSDC"));
    assert_eq!(auths.remaining_limit(&customer, &merchant, 20), Ok(400));
    // More than what is left is refused, and changes nothing.
    assert_eq!(auths.pull_payment(&merchant, &customer, 401, 20), Err(MerchantAuthError::LimitExceeded));
    assert_eq!(auths.remaining_limit(&customer, &merchant, 20), Ok(400));
    // Exactly what is left is accepted.
    assert_eq!(auths.pull_payment(&merchant, &customer, 400, 20).unwrap().pulled_this_period, 1000);
    assert_eq!(auths.remaining_limit(&customer, &merchant, 99), Ok(0));
}

#[test]
fn new_period_restarts_the_total() {
    let (customer, merchant, mut auths) = authorized(100, 10, 0);
    auths.pull_payment(&merchant, &customer, 100, 5).unwrap();
    // Two and a half periods later the window has rolled forward twice.
    assert_eq!(auths.remaining_limit(&customer, &merchant, 25), Ok(100));
    auths.pull_payment(&merchant, &customer, 30, 25).unwrap();
    let a = auths.get_authorization(&customer, &merchant).unwrap();
    assert_eq!(a.period_start, 20);
    assert_eq!(a.pulled_this_period, 30);
    assert_eq!(auths.remaining_limit(&customer, &merchant, 29), Ok(70));
}

#[test]
fn pull_errors() {
    let (customer, merchant, mut auths) = authorized(100, 10, 0);
    assert_eq!(auths.pull_payment(&merchant, &customer, 0, 1), Err(MerchantAuthError::InvalidAmount));
    assert_eq!(auths.pull_payment(&merchant, &customer, -5, 1), Err(MerchantAuthError::InvalidAmount));
    assert_eq!(
        auths.pull_payment(&addr("GOTHER"), &customer, 5, 1),
        Err(MerchantAuthError::AuthorizationNotFound)
    );
    assert_eq!(
        auths.remaining_limit(&customer, &addr("GOTHER"), 1),
        Err(MerchantAuthError::AuthorizationNotFound)
    );
}

#[test]
fn revoked_authorization_stops_pulls_and_can_be_renewed() {
    let (customer, merchant, mut auths) = authorized(100, 10, 0);
    auths.revoke_authorization(&customer, &merchant).unwrap();
    assert_eq!(auths.remaining_limit(&customer, &merchant, 1), Ok(0));
    assert_eq!(auths.pull_payment(&merchant, &customer, 1, 1), Err(MerchantAuthError::AuthorizationInactive));
    assert_eq!(auths.revoke_authorization(&customer, &merchant), Err(MerchantAuthError::AuthorizationInactive));
    assert_eq!(
        auths.revoke_authorization(&customer, &addr("GOTHER")),
        Err(MerchantAuthError::AuthorizationNotFound)
    );
    // An inactive authorization may be replaced.
    auths.pre_authorize_merchant(customer.clone(), merchant.clone(), addr("CEURC"), 50, 20, 7).unwrap();
    let a = auths.get_authorization(&customer, &merchant).unwrap();
    assert!(a.active);
    assert_eq!(a.limit_per_period, 50);
    assert_eq!(a.token, addr("CEURC"));
}

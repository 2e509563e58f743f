use fluxapay::access_control::{
    role_admin, role_arbitrator, role_merchant, role_oracle, role_settlement_operator, AccessControl,
    AccessControlError, AdminAction, RevokeOutcome, DEFAULT_ADMIN_TRANSFER_LOCK_IN, RECOVERY_ADMIN_TRANSFER_LOCK_IN,
    REVOCATION_COOLDOWN_SECS,
};

fn a(x: &str) -> Vec<u8> {
    x.as_bytes().to_vec()
}

fn initialized() -> (Vec<u8>, AccessControl) {
    let mut ac = AccessControl::new();
    let admin = a("GADMIN");
    ac.initialize(admin.clone());
    (admin, ac)
}

#[test]
fn role_symbols() {
    assert_eq!(role_admin(), a("ADMIN"));
    assert_eq!(role_oracle(), a("ORACLE"));
    assert_eq!(role_merchant(), a("MERCHANT"));
    assert_eq!(role_settlement_operator(), a("SETTLEMENT_OPERATOR"));
    assert_eq!(role_arbitrator(), a("ARBITRATOR"));
}

#[test]
fn initialize_sets_admin_and_single_signer() {
    let (admin, ac) = initialized();
    assert_eq!(ac.get_admin(), Some(admin.clone()));
    assert!(ac.has_role(&role_admin(), &admin));
    assert_eq!(ac.get_role_members(&role_admin()), vec![admin.clone()]);
    assert_eq!(ac.get_multisig_config(), (1, vec![admin.clone()]));
    assert_eq!(ac.transfer.lock_in, Some(DEFAULT_ADMIN_TRANSFER_LOCK_IN));
    assert_eq!(ac.require_role(&role_admin(), &admin), Ok(()));
    assert_eq!(ac.require_role(&role_oracle(), &admin), Err(AccessControlError::Unauthorized));
}

#[test]
fn grant_then_revoke_restores_members() {
    let (admin, mut ac) = initialized();
    let m = a("GMERCHANT");
    let before = ac.get_role_members(&role_merchant());
    ac.grant_role(&admin, role_merchant(), m.clone()).unwrap();
    assert!(ac.has_role(&role_merchant(), &m));
    assert_eq!(ac.grant_role(&admin, role_merchant(), m.clone()), Err(AccessControlError::RoleAlreadyGranted));
    // A non-critical role is revoked at once.
    assert_eq!(ac.revoke_role(&admin, role_merchant(), m.clone(), 0), Ok(RevokeOutcome::Revoked));
    assert!(!ac.has_role(&role_merchant(), &m));
    assert_eq!(ac.get_role_members(&role_merchant()), before);
    assert_eq!(ac.revoke_role(&admin, role_merchant(), m.clone(), 0), Err(AccessControlError::RoleNotGranted));
}

#[test]
fn only_the_admin_grants_and_revokes() {
    let (_admin, mut ac) = initialized();
    let x = a("GX");
    assert_eq!(ac.grant_role(&x, role_oracle(), x.clone()), Err(AccessControlError::Unauthorized));
    assert_eq!(ac.revoke_role(&x, role_admin(), a("GADMIN"), 0), Err(AccessControlError::Unauthorized));
}

#[test]
fn critical_role_revocation_waits_for_cooldown() {
    let (admin, mut ac) = initialized();
    let o = a("GORACLE");
    ac.grant_role(&admin, role_oracle(), o.clone()).unwrap();
    assert_eq!(ac.revoke_role(&admin, role_oracle(), o.clone(), 100), Ok(RevokeOutcome::Pending));
    assert!(ac.has_role(&role_oracle(), &o));
    assert_eq!(ac.get_pending_revocation(&role_oracle(), &o).map(|p| p.created_at), Some(100));
    assert_eq!(
        ac.finalize_revocation(&admin, &role_oracle(), &o, 100 + REVOCATION_COOLDOWN_SECS - 1),
        Err(AccessControlError::RevocationCooldownActive)
    );
    ac.finalize_revocation(&admin, &role_oracle(), &o, 100 + REVOCATION_COOLDOWN_SECS).unwrap();
    assert!(!ac.has_role(&role_oracle(), &o));
    assert!(ac.get_pending_revocation(&role_oracle(), &o).is_none());
    assert_eq!(
        ac.finalize_revocation(&admin, &role_oracle(), &o, u64::MAX / 2),
        Err(AccessControlError::NoPendingRevocation)
    );
}

#[test]
fn cancelled_revocation_keeps_the_role() {
    let (admin, mut ac) = initialized();
    let o = a("GSETTLER");
    ac.grant_role(&admin, role_settlement_operator(), o.clone()).unwrap();
    ac.revoke_role(&admin, role_settlement_operator(), o.clone(), 0).unwrap();
    ac.cancel_revocation(&admin, &role_settlement_operator(), &o).unwrap();
    assert!(ac.get_pending_revocation(&role_settlement_operator(), &o).is_none());
    assert!(ac.has_role(&role_settlement_operator(), &o));
    assert_eq!(
        ac.cancel_revocation(&admin, &role_settlement_operator(), &o),
        Err(AccessControlError::NoPendingRevocation)
    );
}

#[test]
fn emergency_revocation_is_immediate() {
    let (admin, mut ac) = initialized();
    let o = a("GORACLE");
    ac.grant_role(&admin, role_oracle(), o.clone()).unwrap();
    ac.revoke_role(&admin, role_oracle(), o.clone(), 0).unwrap();
    ac.emergency_revoke_role(&admin, &role_oracle(), &o).unwrap();
    assert!(!ac.has_role(&role_oracle(), &o));
    assert_eq!(ac.emergency_revoke_role(&admin, &role_oracle(), &o), Err(AccessControlError::RoleNotGranted));
}

#[test]
fn renounce_role_rules() {
    let (admin, mut ac) = initialized();
    let m = a("GMERCHANT");
    assert_eq!(ac.renounce_role(&admin, &role_admin()), Err(AccessControlError::CannotRenounceAdmin));
    assert_eq!(ac.renounce_role(&m, &role_merchant()), Ok(false));
    ac.grant_role(&admin, role_merchant(), m.clone()).unwrap();
    assert_eq!(ac.renounce_role(&m, &role_merchant()), Ok(true));
    assert!(!ac.has_role(&role_merchant(), &m));
}

#[test]
fn two_step_admin_transfer() {
    let (admin, mut ac) = initialized();
    let next = a("GNEXT");
    ac.propose_admin(&admin, next.clone(), 50).unwrap();
    assert_eq!(ac.get_pending_admin_transfer(), &Some((next.clone(), 50)));
    assert_eq!(ac.transfer_admin(&admin, a("GOTHER"), 51), Err(AccessControlError::PendingAdminTransfer));
    assert_eq!(ac.claim_admin(&a("GOTHER"), 60), Err(AccessControlError::Unauthorized));
    assert_eq!(ac.claim_admin(&next, 60), Ok(admin.clone()));
    assert_eq!(ac.get_admin(), Some(next.clone()));
    assert!(ac.has_role(&role_admin(), &next));
    assert!(!ac.has_role(&role_admin(), &admin));
    assert_eq!(ac.get_pending_admin_transfer(), &None);
}

#[test]
fn cancelled_admin_transfer_cannot_be_claimed() {
    let (admin, mut ac) = initialized();
    let next = a("GNEXT");
    ac.transfer_admin(&admin, next.clone(), 0).unwrap();
    ac.cancel_admin_transfer(&admin).unwrap();
    assert!(ac.claim_admin(&next, 1).is_err());
    assert_eq!(ac.get_admin(), Some(admin));
}

#[test]
fn recovery_key_starts_a_transfer() {
    let mut ac = AccessControl::new();
    let admin = a("GADMIN");
    let recovery = a("GRECOVERY");
    ac.initialize_with_recovery(admin.clone(), recovery.clone());
    assert_eq!(ac.get_recovery_key(), Some(recovery.clone()));
    assert_eq!(
        ac.recovery_initiate_admin_transfer(&a("GX"), a("GNEW"), 0),
        Err(AccessControlError::Unauthorized)
    );
    ac.recovery_initiate_admin_transfer(&recovery, a("GNEW"), 7).unwrap();
    assert_eq!(ac.get_pending_admin_transfer(), &Some((a("GNEW"), 7)));
    // A transfer started by the recovery key is locked in for thirty days.
    assert_eq!(ac.accept_admin_transfer(&a("GNEW"), 7), Err(AccessControlError::TransferLockInActive));
    assert_eq!(
        ac.claim_admin(&a("GNEW"), 7 + RECOVERY_ADMIN_TRANSFER_LOCK_IN - 1),
        Err(AccessControlError::TransferLockInActive)
    );
    assert_eq!(ac.get_admin(), Some(admin.clone()));
    assert_eq!(ac.get_pending_admin_transfer(), &Some((a("GNEW"), 7)));
    assert_eq!(ac.accept_admin_transfer(&a("GNEW"), 7 + RECOVERY_ADMIN_TRANSFER_LOCK_IN), Ok(admin));
    assert_eq!(ac.get_admin(), Some(a("GNEW")));
}

#[test]
fn recovery_needs_a_key() {
    let (admin, mut ac) = initialized();
    assert_eq!(
        ac.recovery_initiate_admin_transfer(&admin, a("GNEW"), 0),
        Err(AccessControlError::RecoveryKeyNotSet)
    );
    ac.set_recovery_key(&admin, a("GREC")).unwrap();
    assert_eq!(ac.get_recovery_key(), Some(a("GREC")));
    assert_eq!(ac.set_recovery_key(&a("GX"), a("GREC2")), Err(AccessControlError::Unauthorized));
}

#[test]
fn multisig_proposal_needs_threshold() {
    let (admin, mut ac) = initialized();
    let s2 = a("GSIGNER2");
    ac.set_multisig_config(&admin, 2, vec![admin.clone(), s2.clone()]).unwrap();
    assert_eq!(ac.get_multisig_config(), (2, vec![admin.clone(), s2.clone()]));
    let m = a("GMERCHANT");
    assert_eq!(
        ac.create_proposal(&a("GX"), AdminAction::GrantRole(role_merchant(), m.clone()), 0),
        Err(AccessControlError::Unauthorized)
    );
    let nonce = ac.create_proposal(&admin, AdminAction::GrantRole(role_merchant(), m.clone()), 0).unwrap();
    assert_eq!(nonce, 0);
    assert_eq!(ac.execute_proposal(nonce, 1), Err(AccessControlError::ProposalThresholdNotMet));
    assert_eq!(ac.vote_proposal(&admin, nonce), Err(AccessControlError::ProposalAlreadyVoted));
    assert_eq!(ac.vote_proposal(&s2, 99), Err(AccessControlError::ProposalNotFound));
    ac.vote_proposal(&s2, nonce).unwrap();
    assert_eq!(ac.get_proposal(nonce).map(|p| p.approvals.len()), Some(2));
    ac.execute_proposal(nonce, 2).unwrap();
    assert!(ac.has_role(&role_merchant(), &m));
    assert!(ac.get_proposal(nonce).is_none());
    assert_eq!(ac.execute_proposal(nonce, 2), Err(AccessControlError::ProposalNotFound));
}

#[test]
fn multisig_proposal_expires() {
    let (admin, mut ac) = initialized();
    let nonce = ac.create_proposal(&admin, AdminAction::TransferAdmin(a("GNEW")), 10).unwrap();
    assert_eq!(ac.execute_proposal(nonce, 10 + 604_800 + 1), Err(AccessControlError::ProposalExpired));
    ac.execute_proposal(nonce, 10 + 604_800).unwrap();
    assert_eq!(ac.get_admin(), Some(a("GNEW")));
    assert!(ac.has_role(&role_admin(), &a("GNEW")));
    assert!(!ac.has_role(&role_admin(), &admin));
    let n2 = ac.create_proposal(&admin, AdminAction::RevokeRole(role_oracle(), a("GO")), 0).unwrap();
    assert_eq!(n2, 1);
    assert_eq!(ac.execute_proposal(n2, 0), Err(AccessControlError::RoleNotGranted));
}

#[test]
fn revoke_then_grant_restores_holders() {
    let (admin, mut ac) = initialized();
    let m1 = a("GM1");
    let m2 = a("GM2");
    ac.grant_role(&admin, role_merchant(), m1.clone()).unwrap();
    ac.grant_role(&admin, role_merchant(), m2.clone()).unwrap();
    ac.revoke_role(&admin, role_merchant(), m1.clone(), 0).unwrap();
    ac.grant_role(&admin, role_merchant(), m1.clone()).unwrap();
    // The same accounts hold the role; the re-granted one is listed last.
    assert_eq!(ac.get_role_members(&role_merchant()), vec![m2, m1]);
}

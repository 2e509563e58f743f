//! The events the contracts publish, as plain records: what each one says
//! when a payment, refund, dispute, link, role or rate changes.
use vstd::prelude::*;

use crate::text::{Address, Symbol, Text};

verus! {

/// Emitted when a new payment charge is created.
#[derive(Debug, PartialEq, Eq)]
pub struct PaymentCreated {
    pub payment_id: Text,
    pub merchant_id: Address,
    pub amount: i128,
}

/// Emitted when a payment is verified (amount received within tolerance).
#[derive(Debug, PartialEq, Eq)]
pub struct PaymentVerified {
    pub payment_id: Text,
    pub merchant_id: Address,
    pub amount: i128,
    pub amount_received: i128,
}

/// Emitted when a payment is partially paid (amount below tolerance).
#[derive(Debug, PartialEq, Eq)]
pub struct PaymentPartiallyPaid {
    pub payment_id: Text,
    pub merchant_id: Address,
    pub amount: i128,
    pub amount_received: i128,
}

/// Emitted when a payment is overpaid (amount above tolerance).
#[derive(Debug, PartialEq, Eq)]
pub struct PaymentOverpaid {
    pub payment_id: Text,
    pub merchant_id: Address,
    pub amount: i128,
    pub amount_received: i128,
}

/// Emitted when a payment verification fails.
#[derive(Debug, PartialEq, Eq)]
pub struct PaymentFailed {
    pub payment_id: Text,
    pub merchant_id: Address,
    pub amount: i128,
    pub amount_received: i128,
}

/// Emitted when a payment is cancelled.
#[derive(Debug, PartialEq, Eq)]
pub struct PaymentCancelled {
    pub payment_id: Text,
    pub merchant_id: Address,
    pub amount: i128,
}

/// Emitted when a payment expires.
#[derive(Debug, PartialEq, Eq)]
pub struct PaymentExpired {
    pub payment_id: Text,
    pub merchant_id: Address,
    pub amount: i128,
}

/// Emitted when a payment is settled.
#[derive(Debug, PartialEq, Eq)]
pub struct PaymentSettled {
    pub payment_id: Text,
    pub merchant_id: Address,
    pub amount: i128,
}

/// Emitted when a batch of payments is created.
#[derive(Debug, PartialEq, Eq)]
pub struct PaymentBatchCreated {
    pub merchant_id: Address,
    pub count: u32,
}

/// Emitted when a fee is collected from a payment.
#[derive(Debug, PartialEq, Eq)]
pub struct FeeCollected {
    pub payment_id: Text,
    pub merchant_id: Address,
    pub fee_amount: i128,
}

/// Emitted when KYC tier is upgraded.
#[derive(Debug, PartialEq, Eq)]
pub struct KycTierUpgraded {
    pub merchant_id: Address,
    pub old_tier: Text,
    pub new_tier: Text,
}

/// Emitted when a refund request is created.
#[derive(Debug, PartialEq, Eq)]
pub struct RefundCreated {
    pub refund_id: Text,
    pub payment_id: Text,
    pub amount: i128,
}

/// Emitted when a refund is completed.
#[derive(Debug, PartialEq, Eq)]
pub struct RefundCompleted {
    pub refund_id: Text,
    pub payment_id: Text,
    pub amount: i128,
}

/// Emitted when a refund is rejected.
#[derive(Debug, PartialEq, Eq)]
pub struct RefundRejected {
    pub refund_id: Text,
    pub payment_id: Text,
    pub amount: i128,
}

/// Emitted when a refund is approved.
#[derive(Debug, PartialEq, Eq)]
pub struct RefundApproved {
    pub refund_id: Text,
    pub payment_id: Text,
    pub amount: i128,
}

/// Emitted when a refund is cancelled.
#[derive(Debug, PartialEq, Eq)]
pub struct RefundCancelled {
    pub refund_id: Text,
    pub payment_id: Text,
    pub amount: i128,
}

/// Emitted when a dispute is created.
#[derive(Debug, PartialEq, Eq)]
pub struct DisputeCreated {
    pub dispute_id: Text,
    pub payment_id: Text,
}

/// Emitted when a dispute is reviewed.
#[derive(Debug, PartialEq, Eq)]
pub struct DisputeReviewed {
    pub dispute_id: Text,
    pub payment_id: Text,
}

/// Emitted when a dispute is resolved.
#[derive(Debug, PartialEq, Eq)]
pub struct DisputeResolved {
    pub dispute_id: Text,
    pub payment_id: Text,
}

/// Emitted when a dispute is rejected.
#[derive(Debug, PartialEq, Eq)]
pub struct DisputeRejected {
    pub dispute_id: Text,
    pub payment_id: Text,
}

/// Emitted when a dispute is escalated.
#[derive(Debug, PartialEq, Eq)]
pub struct DisputeEscalated {
    pub dispute_id: Text,
    pub payment_id: Text,
}

/// Emitted when a dispute stake is locked.
#[derive(Debug, PartialEq, Eq)]
pub struct DisputeStakeLocked {
    pub dispute_id: Text,
    pub arbitrator: Address,
    pub amount: i128,
}

/// Emitted when an arbitrator vote is cast.
#[derive(Debug, PartialEq, Eq)]
pub struct DisputeVoteCast {
    pub dispute_id: Text,
    pub arbitrator: Address,
    pub vote: Text,
}

/// Emitted when an arbitrator votes on a dispute.
#[derive(Debug, PartialEq, Eq)]
pub struct ArbitratorVote {
    pub dispute_id: Text,
    pub arbitrator: Address,
    pub vote: Text,
}

/// Emitted when a subscription is created.
#[derive(Debug, PartialEq, Eq)]
pub struct SubscriptionCreated {
    pub subscription_id: Text,
    pub payer: Address,
    pub plan_id: Text,
}

/// Emitted when a subscription is cancelled.
#[derive(Debug, PartialEq, Eq)]
pub struct SubscriptionCancelled {
    pub subscription_id: Text,
    pub payer: Address,
}

/// Emitted when a subscription expires.
#[derive(Debug, PartialEq, Eq)]
pub struct SubscriptionExpired {
    pub subscription_id: Text,
    pub payer: Address,
}

/// Emitted when a subscription payment is created.
#[derive(Debug, PartialEq, Eq)]
pub struct SubscriptionPaymentCreated {
    pub subscription_id: Text,
    pub payment_id: Text,
    pub amount: i128,
}

/// Emitted when a stream is created.
#[derive(Debug, PartialEq, Eq)]
pub struct StreamCreated {
    pub stream_id: Text,
    pub sender: Address,
    pub amount: i128,
}

/// Emitted when tokens are withdrawn from a stream.
#[derive(Debug, PartialEq, Eq)]
pub struct StreamWithdrawn {
    pub stream_id: Text,
    pub receiver: Address,
    pub destination: Address,
    pub amount: i128,
    pub remaining_deposit: i128,
}

/// Emitted when a stream destination is set.
#[derive(Debug, PartialEq, Eq)]
pub struct StreamDestinationSet {
    pub stream_id: Text,
    pub destination: Address,
}

/// Emitted when a stream milestone is approved.
#[derive(Debug, PartialEq, Eq)]
pub struct StreamMilestoneApproved {
    pub stream_id: Text,
    pub milestone_index: u32,
}

/// Emitted when a stream rate is decreased.
#[derive(Debug, PartialEq, Eq)]
pub struct StreamRateDecreased {
    pub stream_id: Text,
    pub old_rate: i128,
    pub new_rate: i128,
}

/// Emitted when a stream is topped up.
#[derive(Debug, PartialEq, Eq)]
pub struct StreamToppedUp {
    pub stream_id: Text,
    pub additional_deposit: i128,
}

/// Emitted when a stream is cancelled.
#[derive(Debug, PartialEq, Eq)]
pub struct StreamCancelled {
    pub stream_id: Text,
    pub refunded_amount: i128,
}

/// Emitted when a stream is paused.
#[derive(Debug, PartialEq, Eq)]
pub struct StreamPaused {
    pub stream_id: Text,
}

/// Emitted when a stream is resumed.
#[derive(Debug, PartialEq, Eq)]
pub struct StreamResumed {
    pub stream_id: Text,
}

/// Emitted when a stream rate is updated.
#[derive(Debug, PartialEq, Eq)]
pub struct StreamRateUpdated {
    pub stream_id: Text,
    pub new_rate: i128,
}

/// Emitted when a stream is closed.
#[derive(Debug, PartialEq, Eq)]
pub struct StreamClosed {
    pub stream_id: Text,
    pub final_amount: i128,
}

/// Emitted when a payment link is created.
#[derive(Debug, PartialEq, Eq)]
pub struct LinkCreated {
    pub link_id: Text,
    pub merchant_id: Address,
    pub metadata: Option<Vec<(Text, Text)>>,
}

/// Emitted when a payment link is used.
#[derive(Debug, PartialEq, Eq)]
pub struct LinkUsed {
    pub link_id: Text,
    pub payer: Address,
    pub amount: i128,
    pub payment_id: Text,
    pub metadata: Option<Vec<(Text, Text)>>,
}

/// Emitted when a payment link is deactivated.
#[derive(Debug, PartialEq, Eq)]
pub struct LinkDeactivated {
    pub link_id: Text,
}

/// Emitted when a merchant is registered.
#[derive(Debug, PartialEq, Eq)]
pub struct MerchantRegistered {
    pub merchant_id: Address,
    pub settlement_currency: Text,
}

/// Emitted when a merchant is verified.
#[derive(Debug, PartialEq, Eq)]
pub struct MerchantVerified {
    pub merchant_id: Address,
}

/// Emitted when a merchant is updated.
#[derive(Debug, PartialEq, Eq)]
pub struct MerchantUpdated {
    pub merchant_id: Address,
}

/// Emitted when a merchant's partial payment setting is updated.
#[derive(Debug, PartialEq, Eq)]
pub struct MerchantPartialPaymentUpdated {
    pub merchant_id: Address,
    pub allowed: bool,
}

/// Emitted when a role is granted.
#[derive(Debug, PartialEq, Eq)]
pub struct RoleGranted {
    pub role: Symbol,
    pub account: Address,
    pub admin: Address,
}

/// Emitted when a role is revoked.
#[derive(Debug, PartialEq, Eq)]
pub struct RoleRevoked {
    pub role: Symbol,
    pub account: Address,
    pub admin: Address,
}

/// Emitted when admin is proposed.
#[derive(Debug, PartialEq, Eq)]
pub struct AdminProposed {
    pub current_admin: Address,
    pub new_admin: Address,
}

/// Emitted when admin is claimed.
#[derive(Debug, PartialEq, Eq)]
pub struct AdminClaimed {
    pub new_admin: Address,
}

/// Emitted when roles are synced across contracts.
#[derive(Debug, PartialEq, Eq)]
pub struct AccessControlSyncGrant {
    pub role: Symbol,
    pub account: Address,
}

/// Emitted when roles are unsynced across contracts.
#[derive(Debug, PartialEq, Eq)]
pub struct AccessControlSyncRevoke {
    pub role: Symbol,
    pub account: Address,
}

/// Emitted when a contract is upgraded.
#[derive(Debug, PartialEq, Eq)]
pub struct ContractUpgraded {
    pub old_version: Text,
    pub new_version: Text,
}

/// Emitted when tokens are withdrawn from treasury.
#[derive(Debug, PartialEq, Eq)]
pub struct TreasuryWithdrawn {
    pub amount: i128,
    pub recipient: Address,
}

/// Emitted when a token is removed from the supported list.
#[derive(Debug, PartialEq, Eq)]
pub struct TokenRemoved {
    pub token_address: Address,
}

/// Emitted when fee split configuration is set.
#[derive(Debug, PartialEq, Eq)]
pub struct FeeSplitConfigured {
    pub treasury_bps: u32,
    pub developer_bps: u32,
}

/// Emitted when merchant authorization is granted.
#[derive(Debug, PartialEq, Eq)]
pub struct MerchantAuthGranted {
    pub merchant_id: Address,
    pub delegate: Address,
}

/// Emitted when merchant authorization is revoked.
#[derive(Debug, PartialEq, Eq)]
pub struct MerchantAuthRevoked {
    pub merchant_id: Address,
    pub delegate: Address,
}

/// Emitted when merchant authorization is used.
#[derive(Debug, PartialEq, Eq)]
pub struct MerchantAuthUsed {
    pub merchant_id: Address,
    pub delegate: Address,
}

/// Emitted when a fallback swap is executed.
#[derive(Debug, PartialEq, Eq)]
pub struct SwapFallback {
    pub amount_in: i128,
    pub amount_out: i128,
}

/// Emitted when a swap is executed.
#[derive(Debug, PartialEq, Eq)]
pub struct SwapExecuted {
    pub amount_in: i128,
    pub amount_out: i128,
}

/// Emitted when a refund is sent to the caller.
#[derive(Debug, PartialEq, Eq)]
pub struct SwapRefundCaller {
    pub recipient: Address,
    pub amount: i128,
}

/// Emitted when an FX rate is updated.
#[derive(Debug, PartialEq, Eq)]
pub struct RateUpdated {
    pub currency: Symbol,
}

/// Emitted when a swap-and-pay operation completes.
#[derive(Debug, PartialEq, Eq)]
pub struct SwapAndPayExecuted {
    pub payment_id: Text,
    pub merchant_id: Address,
    pub amount: i128,
    pub token_in: Address,
    pub amount_in: i128,
}

} // verus!

//! The refund manager: refunds and disputes against registered payments,
//! numbered by counters, filed per payment, capped by the payment's amount,
//! and decided by operators.
//!
//! Paying a refund out is a token transfer that the ledger carries out and
//! that can fail. It is split in two: `process_refund` checks the request
//! and says which transfers to make (the refund less a one percent fee to
//! the requester, the fee to the admin); `finish_refund` records the
//! outcome.
use vstd::prelude::*;

use crate::access_control::{
    admin_role, is_critical_role, oracle_role, role_oracle, role_settlement_operator,
    settlement_operator_role, with_grant, without_grant, AccessControl, PendingRevocation,
    RevokeOutcome,
};
use crate::math::{clamp_i128, div_trunc, sat_add, trunc_div};
use crate::payments::FluxaError;
use crate::store::{
    append_id, as_map, find, get_ids, ids_under, lemma_replace, put, take_at, unique_keys, IdIndex,
    Keyed,
};
use crate::text::{
    bytes_eq, copy_bytes, format_id, format_id_spec, ids_counted, is_zero_address,
    lemma_next_id_fresh, zero_contract_address, Address, Symbol, Text,
};

verus! {

/// Where a refund stands.
#[derive(Clone, Copy, Debug, PartialEq, Eq, Structural)]
pub enum RefundStatus {
    Pending,
    Completed,
    Rejected,
}

/// Where a dispute stands.
#[derive(Clone, Copy, Debug, PartialEq, Eq, Structural)]
pub enum DisputeStatus {
    Open,
    UnderReview,
    Resolved,
    Rejected,
}

/// A refund request against a payment.
#[derive(Debug, PartialEq, Eq)]
pub struct Refund {
    pub refund_id: Text,
    pub payment_id: Text,
    pub amount: i128,
    pub reason: Text,
    pub status: RefundStatus,
    pub requester: Address,
    pub created_at: u64,
    pub processed_at: Option<u64>,
}

impl Keyed for Refund {
    type Key = Text;

    type KV = Seq<u8>;

    open spec fn key_of(&self) -> Seq<u8> {
        self.refund_id@
    }

    open spec fn key_view(k: &Text) -> Seq<u8> {
        k@
    }

    fn same_key(&self, other: &Self) -> (b: bool) {
        bytes_eq(&self.refund_id, &other.refund_id)
    }

    fn has_key(&self, k: &Text) -> (b: bool) {
        bytes_eq(&self.refund_id, k)
    }
}

/// A dispute opened against a payment.
#[derive(Debug, PartialEq, Eq)]
pub struct Dispute {
    pub dispute_id: Text,
    pub payment_id: Text,
    pub refund_id: Option<Text>,
    pub amount: i128,
    pub reason: Text,
    pub evidence: Text,
    pub status: DisputeStatus,
    pub disputer: Address,
    pub created_at: u64,
    pub resolved_at: Option<u64>,
    pub resolution_notes: Option<Text>,
}

impl Keyed for Dispute {
    type Key = Text;

    type KV = Seq<u8>;

    open spec fn key_of(&self) -> Seq<u8> {
        self.dispute_id@
    }

    open spec fn key_view(k: &Text) -> Seq<u8> {
        k@
    }

    fn same_key(&self, other: &Self) -> (b: bool) {
        bytes_eq(&self.dispute_id, &other.dispute_id)
    }

    fn has_key(&self, k: &Text) -> (b: bool) {
        bytes_eq(&self.dispute_id, k)
    }
}

/// A token transfer from this contract that the ledger is to carry out.
#[derive(Debug, PartialEq, Eq)]
pub struct TokenTransfer {
    pub token: Address,
    pub to: Address,
    pub amount: i128,
}

/// `refund_`
pub open spec fn refund_prefix() -> Seq<u8> {
    seq![114u8, 101u8, 102u8, 117u8, 110u8, 100u8, 95u8]
}

/// `dispute_`
pub open spec fn dispute_prefix() -> Seq<u8> {
    seq![100u8, 105u8, 115u8, 112u8, 117u8, 116u8, 101u8, 95u8]
}

/// `Refund issued due to dispute resolution`
pub open spec fn dispute_refund_reason() -> Seq<u8> {
    seq![
        82u8,
        101u8,
        102u8,
        117u8,
        110u8,
        100u8,
        32u8,
        105u8,
        115u8,
        115u8,
        117u8,
        101u8,
        100u8,
        32u8,
        100u8,
        117u8,
        101u8,
        32u8,
        116u8,
        111u8,
        32u8,
        100u8,
        105u8,
        115u8,
        112u8,
        117u8,
        116u8,
        101u8,
        32u8,
        114u8,
        101u8,
        115u8,
        111u8,
        108u8,
        117u8,
        116u8,
        105u8,
        111u8,
        110u8,
    ]
}

/// The records that the ids of `ids` name in `m`, in the order of `ids`,
/// skipping ids that name nothing.
pub open spec fn records_for<T>(ids: Seq<Seq<u8>>, m: Map<Seq<u8>, T>) -> Seq<T>
    decreases ids.len(),
{
    if ids.len() == 0 {
        Seq::empty()
    } else {
        let rest = records_for(ids.drop_last(), m);
        if m.contains_key(ids.last()) {
            rest.push(m[ids.last()])
        } else {
            rest
        }
    }
}

/// Whether a refund can come from status `from` to status `to`: a pending
/// refund is completed or rejected, and then stays so.
pub open spec fn refund_status_may_follow(from: RefundStatus, to: RefundStatus) -> bool {
    from == to || from == RefundStatus::Pending
}

/// Whether a dispute can come from status `from` to status `to`: an open
/// dispute goes under review, is resolved or is rejected; one under review
/// is resolved or rejected; a closed one stays closed.
pub open spec fn dispute_status_may_follow(from: DisputeStatus, to: DisputeStatus) -> bool {
    ||| from == to
    ||| from == DisputeStatus::Open
    ||| from == DisputeStatus::UnderReview && to != DisputeStatus::Open
}

/// Every refund of `before` is still in `after`, with a status that may
/// follow its earlier one.
pub open spec fn refund_lifecycle_respected(before: Map<Seq<u8>, Refund>, after: Map<Seq<u8>, Refund>) -> bool {
    forall|k: Seq<u8>|
        #[trigger] before.contains_key(k) ==> after.contains_key(k) && refund_status_may_follow(
            before[k].status,
            after[k].status,
        )
}

/// Every dispute of `before` is still in `after`, with a status that may
/// follow its earlier one.
pub open spec fn dispute_lifecycle_respected(
    before: Map<Seq<u8>, Dispute>,
    after: Map<Seq<u8>, Dispute>,
) -> bool {
    forall|k: Seq<u8>|
        #[trigger] before.contains_key(k) ==> after.contains_key(k) && dispute_status_may_follow(
            before[k].status,
            after[k].status,
        )
}

/// A completed or rejected refund, and a resolved or rejected dispute, keep
/// their status for good.
pub proof fn lemma_closed_statuses_stay(
    rf: RefundStatus,
    rt: RefundStatus,
    df: DisputeStatus,
    dt: DisputeStatus,
)
    requires
        refund_status_may_follow(rf, rt),
        dispute_status_may_follow(df, dt),
    ensures
        rf != RefundStatus::Pending ==> rt == rf,
        is_closed(df) ==> dt == df,
{
}

/// Steps that each respect the refund and dispute lifecycles respect them
/// together, so any run of refund-manager operations does.
pub proof fn lemma_refund_lifecycles_chain(
    ra: Map<Seq<u8>, Refund>,
    rb: Map<Seq<u8>, Refund>,
    rc: Map<Seq<u8>, Refund>,
    da: Map<Seq<u8>, Dispute>,
    db: Map<Seq<u8>, Dispute>,
    dc: Map<Seq<u8>, Dispute>,
)
    requires
        refund_lifecycle_respected(ra, rb),
        refund_lifecycle_respected(rb, rc),
        dispute_lifecycle_respected(da, db),
        dispute_lifecycle_respected(db, dc),
    ensures
        refund_lifecycle_respected(ra, rc),
        dispute_lifecycle_respected(da, dc),
{
    assert forall|k: Seq<u8>| #[trigger] ra.contains_key(k) implies rc.contains_key(k)
        && refund_status_may_follow(ra[k].status, rc[k].status) by {
        assert(rb.contains_key(k));
    }
    assert forall|k: Seq<u8>| #[trigger] da.contains_key(k) implies dc.contains_key(k)
        && dispute_status_may_follow(da[k].status, dc[k].status) by {
        assert(db.contains_key(k));
    }
}

/// A payment that refunds may be filed against, with the amount that the
/// refunds of it may add up to.
#[derive(Debug, PartialEq, Eq)]
pub struct RegisteredPayment {
    pub payment_id: Text,
    pub merchant_id: Address,
    pub amount: i128,
    pub currency: Symbol,
}

impl Keyed for RegisteredPayment {
    type Key = Text;

    type KV = Seq<u8>;

    open spec fn key_of(&self) -> Seq<u8> {
        self.payment_id@
    }

    open spec fn key_view(k: &Text) -> Seq<u8> {
        k@
    }

    fn same_key(&self, other: &Self) -> (b: bool) {
        bytes_eq(&self.payment_id, &other.payment_id)
    }

    fn has_key(&self, k: &Text) -> (b: bool) {
        bytes_eq(&self.payment_id, k)
    }
}

/// What the refunds named by `ids` that are not rejected add up to (the sum
/// saturating at the bounds of `i128`).
pub open spec fn refunded_total(ids: Seq<Seq<u8>>, refunds: Map<Seq<u8>, Refund>) -> i128
    decreases ids.len(),
{
    if ids.len() == 0 {
        0
    } else {
        let rest = refunded_total(ids.drop_last(), refunds);
        if refunds.contains_key(ids.last()) && refunds[ids.last()].status != RefundStatus::Rejected {
            clamp_i128(rest + refunds[ids.last()].amount)
        } else {
            rest
        }
    }
}

/// What the undecided disputes (open or under review) among `ids` add up
/// to, leaving out the one named `skip`, saturating at the bounds of `i128`.
pub open spec fn disputed_total(
    ids: Seq<Seq<u8>>,
    disputes: Map<Seq<u8>, Dispute>,
    skip: Option<Seq<u8>>,
) -> i128
    decreases ids.len(),
{
    if ids.len() == 0 {
        0
    } else {
        let rest = disputed_total(ids.drop_last(), disputes, skip);
        let k = ids.last();
        if disputes.contains_key(k) && !is_closed(disputes[k].status) && skip != Some(k) {
            clamp_i128(rest + disputes[k].amount)
        } else {
            rest
        }
    }
}

/// Every dispute in `disputes` is for a positive amount.
pub open spec fn disputes_positive(disputes: Map<Seq<u8>, Dispute>) -> bool {
    forall|k: Seq<u8>| #[trigger] disputes.contains_key(k) ==> disputes[k].amount > 0
}

/// Undecided disputes of positive amounts add up to no less than zero.
proof fn lemma_disputed_total_nonneg(
    ids: Seq<Seq<u8>>,
    disputes: Map<Seq<u8>, Dispute>,
    skip: Option<Seq<u8>>,
)
    requires
        disputes_positive(disputes),
    ensures
        disputed_total(ids, disputes, skip) >= 0,
    decreases ids.len(),
{
    if ids.len() > 0 {
        lemma_disputed_total_nonneg(ids.drop_last(), disputes, skip);
    }
}

/// Each refund listed counts toward its payment's refunded total unless it
/// was rejected: a pending or a completed refund adds its amount (saturating),
/// a rejected or unknown one adds nothing.
pub proof fn lemma_refunded_total_counts_unrejected(
    ids: Seq<Seq<u8>>,
    refunds: Map<Seq<u8>, Refund>,
    k: Seq<u8>,
)
    ensures
        refunds.contains_key(k) && (refunds[k].status == RefundStatus::Pending
            || refunds[k].status == RefundStatus::Completed) ==> refunded_total(ids.push(k), refunds)
            == clamp_i128(refunded_total(ids, refunds) + refunds[k].amount),
        !refunds.contains_key(k) || refunds[k].status == RefundStatus::Rejected ==> refunded_total(
            ids.push(k),
            refunds,
        ) == refunded_total(ids, refunds),
        refunded_total(Seq::empty(), refunds) == 0,
{
    assert(ids.push(k).drop_last() =~= ids);
}

/// Completing a pending refund (same amount) leaves every refunded total as
/// it was: a completed refund still counts against its payment.
pub proof fn lemma_completion_keeps_refunded_total(
    ids: Seq<Seq<u8>>,
    refunds: Map<Seq<u8>, Refund>,
    k: Seq<u8>,
    done: Refund,
)
    requires
        refunds.contains_key(k),
        refunds[k].status == RefundStatus::Pending,
        done.status == RefundStatus::Completed,
        done.amount == refunds[k].amount,
    ensures
        refunded_total(ids, refunds.insert(k, done)) == refunded_total(ids, refunds),
    decreases ids.len(),
{
    if ids.len() > 0 {
        lemma_completion_keeps_refunded_total(ids.drop_last(), refunds, k, done);
    }
}

/// Each dispute listed counts toward its payment's disputed total while it
/// is undecided: an open dispute or one under review adds its amount
/// (saturating), unless it is the one left out; a resolved, rejected or
/// unknown one adds nothing.
pub proof fn lemma_disputed_total_counts_undecided(
    ids: Seq<Seq<u8>>,
    disputes: Map<Seq<u8>, Dispute>,
    skip: Option<Seq<u8>>,
    k: Seq<u8>,
)
    ensures
        disputes.contains_key(k) && (disputes[k].status == DisputeStatus::Open || disputes[k].status
            == DisputeStatus::UnderReview) && skip != Some(k) ==> disputed_total(
            ids.push(k),
            disputes,
            skip,
        ) == clamp_i128(disputed_total(ids, disputes, skip) + disputes[k].amount),
        !disputes.contains_key(k) || disputes[k].status == DisputeStatus::Resolved
            || disputes[k].status == DisputeStatus::Rejected || skip == Some(k) ==> disputed_total(
            ids.push(k),
            disputes,
            skip,
        ) == disputed_total(ids, disputes, skip),
        disputed_total(Seq::empty(), disputes, skip) == 0,
{
    assert(ids.push(k).drop_last() =~= ids);
}

/// Putting an open dispute under review (same amount) leaves every disputed
/// total as it was: a dispute under review still holds its amount against
/// the payment.
pub proof fn lemma_review_keeps_disputed_total(
    ids: Seq<Seq<u8>>,
    disputes: Map<Seq<u8>, Dispute>,
    skip: Option<Seq<u8>>,
    k: Seq<u8>,
    reviewed: Dispute,
)
    requires
        disputes.contains_key(k),
        disputes[k].status == DisputeStatus::Open,
        reviewed.status == DisputeStatus::UnderReview,
        reviewed.amount == disputes[k].amount,
    ensures
        disputed_total(ids, disputes.insert(k, reviewed), skip) == disputed_total(ids, disputes, skip),
    decreases ids.len(),
{
    if ids.len() > 0 {
        lemma_review_keeps_disputed_total(ids.drop_last(), disputes, skip, k, reviewed);
    }
}

/// Every refund id filed under a payment in `index` names a refund in
/// `refunds`.
pub open spec fn listed_ids_stored(index: Seq<IdIndex>, refunds: Map<Seq<u8>, Refund>) -> bool {
    forall|p: Seq<u8>, i: int|
        0 <= i < ids_under(index, p).len() ==> refunds.contains_key(#[trigger] ids_under(index, p)[i])
}

/// Storing a refund under an id that none of `ids` names leaves their total
/// unchanged.
proof fn lemma_total_ignores_unlisted(
    ids: Seq<Seq<u8>>,
    refunds: Map<Seq<u8>, Refund>,
    k: Seq<u8>,
    r: Refund,
)
    requires
        !ids.contains(k),
    ensures
        refunded_total(ids, refunds.insert(k, r)) == refunded_total(ids, refunds),
    decreases ids.len(),
{
    if ids.len() > 0 {
        assert(ids.drop_last().len() < ids.len());
        assert forall|x: Seq<u8>| ids.drop_last().contains(x) implies ids.contains(x) by {
            let j = choose|j: int| 0 <= j < ids.drop_last().len() && ids.drop_last()[j] == x;
            assert(ids[j] == x);
        }
        assert(ids.last() != k) by {
            assert(ids[ids.len() - 1] == ids.last());
        }
        lemma_total_ignores_unlisted(ids.drop_last(), refunds, k, r);
    }
}

/// Filing a new pending refund of `amount` under `k`, an id not yet listed,
/// adds `amount` to the total (saturating).
proof fn lemma_total_after_filing(
    ids: Seq<Seq<u8>>,
    refunds: Map<Seq<u8>, Refund>,
    k: Seq<u8>,
    r: Refund,
)
    requires
        !ids.contains(k),
        r.status == RefundStatus::Pending,
    ensures
        refunded_total(ids.push(k), refunds.insert(k, r)) == clamp_i128(
            refunded_total(ids, refunds) + r.amount,
        ),
{
    assert(ids.push(k).drop_last() =~= ids);
    lemma_total_ignores_unlisted(ids, refunds, k, r);
}

/// The share of a refund that goes to the admin as a fee: one percent,
/// rounded toward zero.
pub open spec fn refund_fee(amount: i128) -> i128 {
    trunc_div(amount as int, 100) as i128
}

/// The fee lies between zero and the refund amount.
pub proof fn lemma_fee_within(amount: i128)
    ensures
        amount >= 0 ==> 0 <= refund_fee(amount) <= amount,
        amount < 0 ==> amount <= refund_fee(amount) <= 0,
{
    let x = amount as int;
    if x > 0 {
        assert(0 <= x / 100 <= x) by (nonlinear_arith)
            requires
                x > 0,
        ;
    } else if x < 0 {
        assert(0 <= (x * -1) / 100 <= x * -1) by (nonlinear_arith)
            requires
                x < 0,
        ;
    }
}

/// The payout of a refund: the refund amount less the fee to the requester,
/// and the fee, when there is one, to the admin.
#[derive(Debug, PartialEq, Eq)]
pub struct RefundPayout {
    pub payout: TokenTransfer,
    pub fee: Option<TokenTransfer>,
}

/// `p` pays out `amount` in `token`, less the fee, to `requester`, and the
/// fee, if not zero, to `admin`.
pub open spec fn payout_matches(
    p: RefundPayout,
    token: Seq<u8>,
    requester: Seq<u8>,
    admin: Seq<u8>,
    amount: i128,
) -> bool {
    &&& p.payout.token@ == token
    &&& p.payout.to@ == requester
    &&& p.payout.amount == amount - refund_fee(amount)
    &&& if refund_fee(amount) == 0 {
        p.fee is None
    } else {
        p.fee matches Some(f) && f.token@ == token && f.to@ == admin && f.amount == refund_fee(
            amount,
        )
    }
}

/// The refund manager contract state.
#[derive(Debug)]
pub struct RefundManager {
    pub access: AccessControl,
    pub usdc_token: Option<Address>,
    pub payments: Vec<RegisteredPayment>,
    pub refunds: Vec<Refund>,
    pub payment_refunds: Vec<IdIndex>,
    pub refund_counter: Option<u64>,
    pub disputes: Vec<Dispute>,
    pub payment_disputes: Vec<IdIndex>,
    pub dispute_counter: Option<u64>,
}

impl RefundManager {
    /// The store invariant.
    pub open spec fn wf(&self) -> bool {
        &&& self.access.wf()
        &&& unique_keys(self.payments@)
        &&& unique_keys(self.refunds@)
        &&& unique_keys(self.payment_refunds@)
        &&& unique_keys(self.disputes@)
        &&& unique_keys(self.payment_disputes@)
        &&& ids_counted(self.refunds_map().dom(), refund_prefix(), self.refund_count())
        &&& ids_counted(self.disputes_map().dom(), dispute_prefix(), self.dispute_count())
        &&& forall|k: Seq<u8>|
            #[trigger] self.disputes_map().contains_key(k) && self.disputes_map()[k].status
                != DisputeStatus::Resolved ==> self.disputes_map()[k].refund_id is None
        &&& listed_ids_stored(self.payment_refunds@, self.refunds_map())
        &&& disputes_positive(self.disputes_map())
    }

    /// Registered payments by id.
    pub open spec fn registered(&self) -> Map<Seq<u8>, RegisteredPayment> {
        as_map(self.payments@)
    }

    /// Whether a refund of `amount` may be filed against `payment_id`: the
    /// payment must be registered, and its refunds that are not rejected and
    /// its undecided disputes (but `skip`, the dispute this refund settles,
    /// if any), with this refund, must not add up to more than its amount.
    pub open spec fn refund_allowed(&self, payment_id: Seq<u8>, amount: i128, skip: Option<Seq<u8>>) -> Result<
        (),
        FluxaError,
    > {
        if !self.registered().contains_key(payment_id) {
            Err(FluxaError::PaymentNotFound)
        } else if clamp_i128(
            clamp_i128(
                refunded_total(self.refund_ids(payment_id), self.refunds_map()) + disputed_total(
                    self.dispute_ids(payment_id),
                    self.disputes_map(),
                    skip,
                ),
            ) + amount,
        ) > self.registered()[payment_id].amount {
            Err(FluxaError::RefundExceedsPayment)
        } else {
            Ok(())
        }
    }

    /// Whether a dispute of `amount` may be opened against `payment_id`: the
    /// payment must be registered, the amount must not exceed it, and the
    /// refunds that are not rejected and the undecided disputes, with this
    /// one, must not add up to more than it.
    pub open spec fn dispute_allowed(&self, payment_id: Seq<u8>, amount: i128) -> Result<(), FluxaError> {
        if !self.registered().contains_key(payment_id) {
            Err(FluxaError::PaymentNotFound)
        } else if amount > self.registered()[payment_id].amount {
            Err(FluxaError::InvalidAmount)
        } else if clamp_i128(
            clamp_i128(
                refunded_total(self.refund_ids(payment_id), self.refunds_map()) + disputed_total(
                    self.dispute_ids(payment_id),
                    self.disputes_map(),
                    None,
                ),
            ) + amount,
        ) > self.registered()[payment_id].amount {
            Err(FluxaError::RefundExceedsPayment)
        } else {
            Ok(())
        }
    }

    /// Stored refunds by id.
    pub open spec fn refunds_map(&self) -> Map<Seq<u8>, Refund> {
        as_map(self.refunds@)
    }

    /// Stored disputes by id.
    pub open spec fn disputes_map(&self) -> Map<Seq<u8>, Dispute> {
        as_map(self.disputes@)
    }

    /// The refund ids filed under a payment, oldest first.
    pub open spec fn refund_ids(&self, payment_id: Seq<u8>) -> Seq<Seq<u8>> {
        ids_under(self.payment_refunds@, payment_id)
    }

    /// The dispute ids filed under a payment, oldest first.
    pub open spec fn dispute_ids(&self, payment_id: Seq<u8>) -> Seq<Seq<u8>> {
        ids_under(self.payment_disputes@, payment_id)
    }

    /// The number of refunds created so far.
    pub open spec fn refund_count(&self) -> u64 {
        match self.refund_counter {
            Some(n) => n,
            None => 0,
        }
    }

    /// The number of disputes opened so far.
    pub open spec fn dispute_count(&self) -> u64 {
        match self.dispute_counter {
            Some(n) => n,
            None => 0,
        }
    }

    /// Whether `account` may decide refunds and disputes (settlement operator
    /// or oracle).
    pub open spec fn is_operator(&self, account: Seq<u8>) -> bool {
        self.access.holds(settlement_operator_role(), account) || self.access.holds(
            oracle_role(),
            account,
        )
    }

    /// Everything but the refunds and their counter and index is as in `other`.
    pub open spec fn only_refunds_differ(&self, other: &Self) -> bool {
        &&& self.access == other.access
        &&& self.usdc_token == other.usdc_token
        &&& self.payments == other.payments
        &&& self.disputes == other.disputes
        &&& self.payment_disputes == other.payment_disputes
        &&& self.dispute_counter == other.dispute_counter
    }

    /// Everything but the access control is as in `other`.
    pub open spec fn only_access_differs(&self, other: &Self) -> bool {
        &&& self.usdc_token == other.usdc_token
        &&& self.payments == other.payments
        &&& self.refunds == other.refunds
        &&& self.payment_refunds == other.payment_refunds
        &&& self.refund_counter == other.refund_counter
        &&& self.disputes == other.disputes
        &&& self.payment_disputes == other.payment_disputes
        &&& self.dispute_counter == other.dispute_counter
    }

    /// Everything but the disputes and their counter and index is as in `other`.
    pub open spec fn only_disputes_differ(&self, other: &Self) -> bool {
        &&& self.access == other.access
        &&& self.usdc_token == other.usdc_token
        &&& self.payments == other.payments
        &&& self.refunds == other.refunds
        &&& self.payment_refunds == other.payment_refunds
        &&& self.refund_counter == other.refund_counter
    }

    /// A refund manager with nothing stored.
    pub fn new() -> (rm: Self)
        ensures
            rm.wf(),
            rm.refunds_map() == Map::<Seq<u8>, Refund>::empty(),
            rm.disputes_map() == Map::<Seq<u8>, Dispute>::empty(),
            rm.refund_count() == 0,
            rm.dispute_count() == 0,
            rm.usdc_token is None,
            rm.registered() == Map::<Seq<u8>, RegisteredPayment>::empty(),
            rm.access.is_fresh(),
            forall|p: Seq<u8>| #[trigger] rm.refund_ids(p) == Seq::<Seq<u8>>::empty(),
            forall|p: Seq<u8>| #[trigger] rm.dispute_ids(p) == Seq::<Seq<u8>>::empty(),
    {
        let rm = RefundManager {
            access: AccessControl::new(),
            usdc_token: None,
            payments: Vec::new(),
            refunds: Vec::new(),
            payment_refunds: Vec::new(),
            refund_counter: None,
            disputes: Vec::new(),
            payment_disputes: Vec::new(),
            dispute_counter: None,
        };
        assert(rm.refunds_map() =~= Map::<Seq<u8>, Refund>::empty());
        assert(rm.disputes_map() =~= Map::<Seq<u8>, Dispute>::empty());
        assert(rm.registered() =~= Map::<Seq<u8>, RegisteredPayment>::empty());
        rm
    }

    /// Sets up access control with `admin` as administrator and records the
    /// token refunds are paid in. Refused when the token is the admin's own
    /// address or either is the zero contract address.
    pub fn initialize_refund_manager(&mut self, admin: Address, usdc_token_address: Address) -> (r:
        Result<(), FluxaError>)
        requires
            old(self).wf(),
        ensures
            final(self).wf(),
            refund_lifecycle_respected(old(self).refunds_map(), final(self).refunds_map()),
            dispute_lifecycle_respected(old(self).disputes_map(), final(self).disputes_map()),
            r is Err <==> admin@ == usdc_token_address@ || admin@ == zero_contract_address()
                || usdc_token_address@ == zero_contract_address(),
            r is Err ==> r == Err::<(), _>(FluxaError::InvalidAddress) && *final(self) == *old(self),
            r is Ok ==> final(self).access.roles.admin_view() == Some(admin@),
            r is Ok ==> final(self).access.roles.pairs() == with_grant(
                old(self).access.roles.pairs(),
                (admin_role(), admin@),
            ),
            r is Ok ==> final(self).usdc_token == Some(usdc_token_address),
            final(self).payments == old(self).payments,
            final(self).refunds == old(self).refunds,
            final(self).payment_refunds == old(self).payment_refunds,
            final(self).refund_counter == old(self).refund_counter,
            final(self).disputes == old(self).disputes,
            final(self).payment_disputes == old(self).payment_disputes,
            final(self).dispute_counter == old(self).dispute_counter,
    {
        if bytes_eq(&admin, &usdc_token_address) || is_zero_address(&admin) || is_zero_address(
            &usdc_token_address,
        ) {
            return Err(FluxaError::InvalidAddress);
        }
        self.access.initialize(admin);
        self.usdc_token = Some(usdc_token_address);
        Ok(())
    }

    /// Registers `payment_id` with its merchant, amount and currency, so that
    /// refunds may be filed against it up to `amount` (replacing an earlier
    /// registration of the same id).
    pub fn register_payment(&mut self, payment_id: Text, merchant_id: Address, amount: i128, currency: Symbol)
        requires
            old(self).wf(),
        ensures
            final(self).wf(),
            refund_lifecycle_respected(old(self).refunds_map(), final(self).refunds_map()),
            dispute_lifecycle_respected(old(self).disputes_map(), final(self).disputes_map()),
            final(self).registered() == old(self).registered().insert(
                payment_id@,
                RegisteredPayment { payment_id, merchant_id, amount, currency },
            ),
            final(self).access == old(self).access,
            final(self).usdc_token == old(self).usdc_token,
            final(self).refunds == old(self).refunds,
            final(self).payment_refunds == old(self).payment_refunds,
            final(self).refund_counter == old(self).refund_counter,
            final(self).disputes == old(self).disputes,
            final(self).payment_disputes == old(self).payment_disputes,
            final(self).dispute_counter == old(self).dispute_counter,
    {
        put(&mut self.payments, RegisteredPayment { payment_id, merchant_id, amount, currency });
    }

    /// What the refunds of `payment_id` that are not rejected add up to.
    pub fn get_refunded_total(&self, payment_id: &Text) -> (t: i128)
        requires
            self.wf(),
        ensures
            t == refunded_total(self.refund_ids(payment_id@), self.refunds_map()),
    {
        let ids = get_ids(&self.payment_refunds, payment_id);
        let ghost idv = crate::text::seq_view(ids@);
        let mut total: i128 = 0;
        let mut i: usize = 0;
        while i < ids.len()
            invariant
                self.wf(),
                i <= ids@.len(),
                idv == crate::text::seq_view(ids@),
                total == refunded_total(idv.take(i as int), self.refunds_map()),
            decreases ids.len() - i,
        {
            assert(idv.take(i as int + 1).drop_last() =~= idv.take(i as int));
            assert(idv.take(i as int + 1).last() == ids@[i as int]@);
            match find(&self.refunds, &ids[i]) {
                Some(j) => {
                    if self.refunds[j].status != RefundStatus::Rejected {
                        total = sat_add(total, self.refunds[j].amount);
                    }
                },
                None => {},
            }
            i = i + 1;
        }
        assert(idv.take(ids@.len() as int) =~= idv);
        total
    }

    /// Why a refund of `amount` against `payment_id` is refused, if it is;
    /// `skip` names the dispute the refund settles, if any.
    pub fn check_refund_allowed(&self, payment_id: &Text, amount: i128, skip: Option<&Text>) -> (r: Result<
        (),
        FluxaError,
    >)
        requires
            self.wf(),
        ensures
            r == self.refund_allowed(
                payment_id@,
                amount,
                match skip {
                    Some(k) => Some(k@),
                    None => None,
                },
            ),
    {
        let limit = match find(&self.payments, payment_id) {
            None => {
                return Err(FluxaError::PaymentNotFound);
            },
            Some(k) => self.payments[k].amount,
        };
        let refunded = self.get_refunded_total(payment_id);
        let disputed = self.get_disputed_total(payment_id, skip);
        if sat_add(sat_add(refunded, disputed), amount) > limit {
            return Err(FluxaError::RefundExceedsPayment);
        }
        Ok(())
    }

    /// What the undecided disputes of `payment_id` but `skip` add up to.
    fn get_disputed_total(&self, payment_id: &Text, skip: Option<&Text>) -> (t: i128)
        requires
            self.wf(),
        ensures
            t == disputed_total(
                self.dispute_ids(payment_id@),
                self.disputes_map(),
                match skip {
                    Some(k) => Some(k@),
                    None => None,
                },
            ),
    {
        let ghost sk = match skip {
            Some(k) => Some(k@),
            None => None,
        };
        let ids = get_ids(&self.payment_disputes, payment_id);
        let ghost idv = crate::text::seq_view(ids@);
        let mut total: i128 = 0;
        let mut i: usize = 0;
        while i < ids.len()
            invariant
                self.wf(),
                i <= ids@.len(),
                idv == crate::text::seq_view(ids@),
                sk == match skip {
                    Some(k) => Some(k@),
                    None => None,
                },
                total == disputed_total(idv.take(i as int), self.disputes_map(), sk),
            decreases ids.len() - i,
        {
            assert(idv.take(i as int + 1).drop_last() =~= idv.take(i as int));
            assert(idv.take(i as int + 1).last() == ids@[i as int]@);
            let skipped = match skip {
                Some(k) => bytes_eq(k, &ids[i]),
                None => false,
            };
            if !skipped {
                match find(&self.disputes, &ids[i]) {
                    Some(j) => {
                        if self.disputes[j].status == DisputeStatus::Open || self.disputes[j].status
                            == DisputeStatus::UnderReview {
                            total = sat_add(total, self.disputes[j].amount);
                        }
                    },
                    None => {},
                }
            }
            i = i + 1;
        }
        assert(idv.take(ids@.len() as int) =~= idv);
        total
    }

    /// Why a dispute of `amount` against `payment_id` is refused, if it is.
    pub fn check_dispute_allowed(&self, payment_id: &Text, amount: i128) -> (r: Result<(), FluxaError>)
        requires
            self.wf(),
        ensures
            r == self.dispute_allowed(payment_id@, amount),
    {
        let limit = match find(&self.payments, payment_id) {
            None => {
                return Err(FluxaError::PaymentNotFound);
            },
            Some(k) => self.payments[k].amount,
        };
        if amount > limit {
            return Err(FluxaError::InvalidAmount);
        }
        let refunded = self.get_refunded_total(payment_id);
        let disputed = self.get_disputed_total(payment_id, None);
        if sat_add(sat_add(refunded, disputed), amount) > limit {
            return Err(FluxaError::RefundExceedsPayment);
        }
        Ok(())
    }

    /// The admin grants `role` to `account`; any refusal is reported as
    /// `AccessControlError`.
    pub fn refund_grant_role(&mut self, admin: &Address, role: Symbol, account: Address) -> (r:
        Result<(), FluxaError>)
        requires
            old(self).wf(),
        ensures
            final(self).wf(),
            refund_lifecycle_respected(old(self).refunds_map(), final(self).refunds_map()),
            dispute_lifecycle_respected(old(self).disputes_map(), final(self).disputes_map()),
            r is Err ==> *final(self) == *old(self),
            r is Ok <==> old(self).access.is_admin(admin@) && !old(self).access.holds(
                role@,
                account@,
            ),
            r is Err ==> r == Err::<(), _>(FluxaError::AccessControlError),
            r is Ok ==> final(self).access.roles.pairs() == old(self).access.roles.pairs().push(
                (role@, account@),
            ),
            final(self).access.roles.admin == old(self).access.roles.admin,
            final(self).access.revocations == old(self).access.revocations,
            final(self).access.transfer == old(self).access.transfer,
            final(self).access.multisig == old(self).access.multisig,
            final(self).only_access_differs(old(self)),
    {
        match self.access.grant_role(admin, role, account) {
            Ok(()) => Ok(()),
            Err(_) => Err(FluxaError::AccessControlError),
        }
    }

    /// The admin revokes `role` from `account` (with the cooldown for critical
    /// roles); any refusal is reported as `AccessControlError`.
    pub fn refund_revoke_role(&mut self, admin: &Address, role: Symbol, account: Address, now: u64) -> (r:
        Result<RevokeOutcome, FluxaError>)
        requires
            old(self).wf(),
        ensures
            final(self).wf(),
            refund_lifecycle_respected(old(self).refunds_map(), final(self).refunds_map()),
            dispute_lifecycle_respected(old(self).disputes_map(), final(self).disputes_map()),
            r is Err ==> *final(self) == *old(self),
            r is Ok <==> old(self).access.is_admin(admin@) && old(self).access.holds(
                role@,
                account@,
            ),
            r is Err ==> r == Err::<RevokeOutcome, _>(FluxaError::AccessControlError),
            r is Ok && is_critical_role(role@) ==> {
                &&& r == Ok::<_, FluxaError>(RevokeOutcome::Pending)
                &&& final(self).access.pending_revocations() == old(
                    self,
                ).access.pending_revocations().insert(
                    (role@, account@),
                    PendingRevocation { role: role, account: account, created_at: now },
                )
                &&& final(self).access.roles == old(self).access.roles
            },
            r is Ok && !is_critical_role(role@) ==> {
                &&& r == Ok::<_, FluxaError>(RevokeOutcome::Revoked)
                &&& final(self).access.roles.pairs() == without_grant(
                    old(self).access.roles.pairs(),
                    (role@, account@),
                )
                &&& final(self).access.roles.admin == old(self).access.roles.admin
                &&& final(self).access.revocations == old(self).access.revocations
            },
            final(self).access.roles.admin == old(self).access.roles.admin,
            final(self).access.transfer == old(self).access.transfer,
            final(self).access.multisig == old(self).access.multisig,
            final(self).only_access_differs(old(self)),
    {
        match self.access.revoke_role(admin, role, account, now) {
            Ok(o) => Ok(o),
            Err(_) => Err(FluxaError::AccessControlError),
        }
    }

    /// Whether `account` holds `role`.
    pub fn refund_has_role(&self, role: &Symbol, account: &Address) -> (b: bool)
        ensures
            b == self.access.holds(role@, account@),
    {
        self.access.has_role(role, account)
    }

    /// `account` gives up `role` (not the admin role); tells whether a role
    /// was taken away.
    pub fn refund_renounce_role(&mut self, account: &Address, role: &Symbol) -> (r: Result<
        bool,
        FluxaError,
    >)
        requires
            old(self).wf(),
        ensures
            final(self).wf(),
            refund_lifecycle_respected(old(self).refunds_map(), final(self).refunds_map()),
            dispute_lifecycle_respected(old(self).disputes_map(), final(self).disputes_map()),
            r is Err ==> *final(self) == *old(self),
            r is Err <==> role@ == admin_role(),
            r is Err ==> r == Err::<bool, _>(FluxaError::AccessControlError),
            r is Ok ==> r == Ok::<bool, FluxaError>(old(self).access.holds(role@, account@)),
            r matches Ok(true) ==> final(self).access.roles.pairs() == without_grant(
                old(self).access.roles.pairs(),
                (role@, account@),
            ),
            !(r matches Ok(true)) ==> *final(self) == *old(self),
            final(self).access.roles.admin == old(self).access.roles.admin,
            final(self).access.revocations == old(self).access.revocations,
            final(self).access.transfer == old(self).access.transfer,
            final(self).access.multisig == old(self).access.multisig,
            final(self).only_access_differs(old(self)),
    {
        match self.access.renounce_role(account, role) {
            Ok(b) => Ok(b),
            Err(_) => Err(FluxaError::AccessControlError),
        }
    }

    /// The admin proposes `new_admin` as the next administrator.
    pub fn refund_transfer_admin(&mut self, current_admin: &Address, new_admin: Address, now: u64) -> (r:
        Result<(), FluxaError>)
        requires
            old(self).wf(),
        ensures
            final(self).wf(),
            refund_lifecycle_respected(old(self).refunds_map(), final(self).refunds_map()),
            dispute_lifecycle_respected(old(self).disputes_map(), final(self).disputes_map()),
            r is Err ==> *final(self) == *old(self),
            r is Ok <==> old(self).access.is_admin(current_admin@) && old(self).access.transfer.pending is None,
            r is Err ==> r == Err::<(), _>(FluxaError::AccessControlError),
            r is Ok ==> final(self).access.transfer.pending == Some((new_admin, now)),
            r is Ok ==> final(self).access.roles == old(self).access.roles,
            final(self).access.roles.admin == old(self).access.roles.admin,
            final(self).access.revocations == old(self).access.revocations,
            final(self).access.multisig == old(self).access.multisig,
            final(self).only_access_differs(old(self)),
    {
        match self.access.transfer_admin(current_admin, new_admin, now) {
            Ok(()) => Ok(()),
            Err(_) => Err(FluxaError::AccessControlError),
        }
    }

    /// The administrator address, if recorded.
    pub fn refund_get_admin(&self) -> (admin: Option<Address>)
        ensures
            crate::text::opt_view(admin) == self.access.roles.admin_view(),
    {
        self.access.get_admin()
    }

    /// The accounts holding `role`, in grant order.
    pub fn get_role_members(&self, role: &Symbol) -> (members: Vec<Address>)
        ensures
            crate::text::seq_view(members@) == crate::access_control::members_of(
                self.access.roles.pairs(),
                role@,
            ),
    {
        self.access.get_role_members(role)
    }

    fn operator_allowed(&self, operator: &Address) -> (b: bool)
        ensures
            b == self.is_operator(operator@),
    {
        self.access.has_role(&role_settlement_operator(), operator) || self.access.has_role(
            &role_oracle(),
            operator,
        )
    }
}

/// A refund as `create_refund` stores it.
pub open spec fn new_refund_matches(
    r: Refund,
    refund_id: Seq<u8>,
    payment_id: Seq<u8>,
    amount: i128,
    reason: Seq<u8>,
    requester: Seq<u8>,
    now: u64,
) -> bool {
    &&& r.refund_id@ == refund_id
    &&& r.payment_id@ == payment_id
    &&& r.amount == amount
    &&& r.reason@ == reason
    &&& r.status == RefundStatus::Pending
    &&& r.requester@ == requester
    &&& r.created_at == now
    &&& r.processed_at is None
}

fn refund_prefix_bytes() -> (p: Vec<u8>)
    ensures
        p@ == refund_prefix(),
{
    let p = vec![114u8, 101u8, 102u8, 117u8, 110u8, 100u8, 95u8];
    assert(p@ =~= refund_prefix());
    p
}

fn dispute_prefix_bytes() -> (p: Vec<u8>)
    ensures
        p@ == dispute_prefix(),
{
    let p = vec![100u8, 105u8, 115u8, 112u8, 117u8, 116u8, 101u8, 95u8];
    assert(p@ =~= dispute_prefix());
    p
}

impl RefundManager {
    /// `self` is `before` with a new pending refund filed under `id`, the next
    /// number of the refund counter: `amount` for `payment_id`, asked for by
    /// `requester` at `now`, listed last under the payment.
    pub open spec fn refund_filed(
        &self,
        before: &Self,
        id: Seq<u8>,
        payment_id: Seq<u8>,
        amount: i128,
        reason: Seq<u8>,
        requester: Seq<u8>,
        now: u64,
    ) -> bool {
        let n = (before.refund_count() + 1) as u64;
        &&& id == format_id_spec(refund_prefix(), n as nat)
        &&& !before.refunds_map().contains_key(id)
        &&& self.refund_count() == n
        &&& self.refunds_map() == before.refunds_map().insert(id, self.refunds_map()[id])
        &&& new_refund_matches(self.refunds_map()[id], id, payment_id, amount, reason, requester, now)
        &&& forall|p: Seq<u8>|
            #[trigger] self.refund_ids(p) == if p == payment_id {
                before.refund_ids(p).push(id)
            } else {
                before.refund_ids(p)
            }
        &&& refunded_total(self.refund_ids(payment_id), self.refunds_map()) == clamp_i128(
            refunded_total(before.refund_ids(payment_id), before.refunds_map()) + amount,
        )
    }

    /// Files a new pending refund under the next refund number.
    fn file_refund(
        &mut self,
        payment_id: Text,
        refund_amount: i128,
        reason: Text,
        requester: Address,
        now: u64,
    ) -> (id: Text)
        requires
            old(self).wf(),
            old(self).refund_count() < u64::MAX,
        ensures
            final(self).wf(),
            refund_lifecycle_respected(old(self).refunds_map(), final(self).refunds_map()),
            final(self).refund_filed(
                old(self),
                id@,
                payment_id@,
                refund_amount,
                reason@,
                requester@,
                now,
            ),
            final(self).only_refunds_differ(old(self)),
    {
        let ghost pid = payment_id@;
        let ghost old_ids = self.refund_ids(pid);
        let ghost old_refunds = self.refunds_map();
        let counter: u64 = match self.refund_counter {
            Some(n) => n,
            None => 0,
        };
        proof {
            lemma_next_id_fresh(self.refunds_map().dom(), refund_prefix(), counter);
        }
        let counter = counter + 1;
        self.refund_counter = Some(counter);
        let prefix = refund_prefix_bytes();
        let refund_id = format_id(prefix.as_slice(), counter);
        append_id(&mut self.payment_refunds, &payment_id, &refund_id);
        let refund = Refund {
            refund_id: copy_bytes(&refund_id),
            payment_id,
            amount: refund_amount,
            reason,
            status: RefundStatus::Pending,
            requester,
            created_at: now,
            processed_at: None,
        };
        let ghost filed = refund;
        put(&mut self.refunds, refund);
        proof {
            if old_ids.contains(refund_id@) {
                let j = choose|j: int| 0 <= j < old_ids.len() && old_ids[j] == refund_id@;
                assert(old_refunds.contains_key(old_ids[j]));
            }
            lemma_total_after_filing(old_ids, old_refunds, refund_id@, filed);
            assert(self.refund_ids(pid) == old_ids.push(refund_id@));
        }
        refund_id
    }

    /// Files a new pending refund of `refund_amount` for `payment_id`, numbered
    /// by the refund counter (`refund_1`, `refund_2`, ...). The payment must
    /// be registered, and its refunds that are not rejected and its undecided
    /// disputes, with this refund, must not add up to more than its amount.
    pub fn create_refund(
        &mut self,
        payment_id: Text,
        refund_amount: i128,
        reason: Text,
        requester: Address,
        now: u64,
    ) -> (r: Result<Text, FluxaError>)
        requires
            old(self).wf(),
            refund_amount > 0 && old(self).refund_allowed(payment_id@, refund_amount, None) is Ok
                ==> old(self).refund_count() < u64::MAX,
        ensures
            final(self).wf(),
            refund_lifecycle_respected(old(self).refunds_map(), final(self).refunds_map()),
            dispute_lifecycle_respected(old(self).disputes_map(), final(self).disputes_map()),
            r is Err ==> *final(self) == *old(self),
            refund_amount <= 0 ==> r == Err::<Text, _>(FluxaError::InvalidAmount),
            refund_amount > 0 && old(self).refund_allowed(payment_id@, refund_amount, None) is Err
                ==> r == Err::<Text, _>(
                old(self).refund_allowed(payment_id@, refund_amount, None)->Err_0,
            ),
            refund_amount > 0 && old(self).refund_allowed(payment_id@, refund_amount, None) is Ok
                ==> {
                &&& r is Ok
                &&& final(self).refund_filed(
                    old(self),
                    r->Ok_0@,
                    payment_id@,
                    refund_amount,
                    reason@,
                    requester@,
                    now,
                )
                &&& final(self).only_refunds_differ(old(self))
                &&& refunded_total(final(self).refund_ids(payment_id@), final(self).refunds_map())
                    <= final(self).registered()[payment_id@].amount
            },
    {
        if refund_amount <= 0 {
            return Err(FluxaError::InvalidAmount);
        }
        if let Err(e) = self.check_refund_allowed(&payment_id, refund_amount, None) {
            return Err(e);
        }
        proof {
            lemma_disputed_total_nonneg(self.dispute_ids(payment_id@), self.disputes_map(), None);
        }
        let id = self.file_refund(payment_id, refund_amount, reason, requester, now);
        Ok(id)
    }

    /// The refund stored under `refund_id`.
    pub fn get_refund(&self, refund_id: &Text) -> (r: Result<&Refund, FluxaError>)
        requires
            self.wf(),
        ensures
            r is Ok <==> self.refunds_map().contains_key(refund_id@),
            r matches Ok(x) ==> *x == self.refunds_map()[refund_id@],
            r is Err ==> r == Err::<&Refund, _>(FluxaError::RefundNotFound),
    {
        match find(&self.refunds, refund_id) {
            Some(i) => Ok(&self.refunds[i]),
            None => Err(FluxaError::RefundNotFound),
        }
    }

    /// The refunds filed under `payment_id`, oldest first.
    pub fn get_payment_refunds(&self, payment_id: &Text) -> (out: Vec<&Refund>)
        requires
            self.wf(),
        ensures
            out@.map_values(|x: &Refund| *x) == records_for(
                self.refund_ids(payment_id@),
                self.refunds_map(),
            ),
    {
        let ids = get_ids(&self.payment_refunds, payment_id);
        let ghost idv = crate::text::seq_view(ids@);
        let mut out: Vec<&Refund> = Vec::new();
        let mut i: usize = 0;
        while i < ids.len()
            invariant
                self.wf(),
                i <= ids@.len(),
                idv == crate::text::seq_view(ids@),
                out@.map_values(|x: &Refund| *x) == records_for(
                    idv.take(i as int),
                    self.refunds_map(),
                ),
            decreases ids.len() - i,
        {
            let ghost prev = out@;
            assert(idv.take(i as int + 1).drop_last() =~= idv.take(i as int));
            assert(idv.take(i as int + 1).last() == ids@[i as int]@);
            match find(&self.refunds, &ids[i]) {
                Some(j) => {
                    out.push(&self.refunds[j]);
                    assert(out@.map_values(|x: &Refund| *x) =~= prev.map_values(|x: &Refund| *x).push(
                        self.refunds@[j as int],
                    ));
                },
                None => {},
            }
            i = i + 1;
        }
        assert(idv.take(ids@.len() as int) =~= idv);
        out
    }

    /// An operator asks for a pending refund to be paid. Nothing changes yet:
    /// the result names the transfers to make, in the refund token, from this
    /// contract: the refund amount less a one percent fee to the requester,
    /// and the fee to the admin; `finish_refund` records whether they went
    /// through.
    pub fn process_refund(&self, operator: &Address, refund_id: &Text) -> (r: Result<
        RefundPayout,
        FluxaError,
    >)
        requires
            self.wf(),
        ensures
            ({
                let refunds = self.refunds_map();
                let id = refund_id@;
                if !self.is_operator(operator@) {
                    r == Err::<RefundPayout, _>(FluxaError::Unauthorized)
                } else if !refunds.contains_key(id) {
                    r == Err::<RefundPayout, _>(FluxaError::RefundNotFound)
                } else if refunds[id].status != RefundStatus::Pending {
                    r == Err::<RefundPayout, _>(FluxaError::RefundAlreadyProcessed)
                } else if self.payout_blocked(refunds[id].amount) {
                    r == Err::<RefundPayout, _>(FluxaError::Unauthorized)
                } else {
                    r matches Ok(p) && payout_matches(
                        p,
                        self.usdc_token->0@,
                        refunds[id].requester@,
                        self.access.roles.admin_view()->0,
                        refunds[id].amount,
                    )
                }
            }),
    {
        if !self.operator_allowed(operator) {
            return Err(FluxaError::Unauthorized);
        }
        let i = match find(&self.refunds, refund_id) {
            Some(i) => i,
            None => {
                return Err(FluxaError::RefundNotFound);
            },
        };
        let refund = &self.refunds[i];
        if refund.status != RefundStatus::Pending {
            return Err(FluxaError::RefundAlreadyProcessed);
        }
        self.payout_for(&refund.requester, refund.amount)
    }

    /// A payout cannot be made: no refund token is recorded, or a fee is due
    /// and no admin is recorded to receive it.
    pub open spec fn payout_blocked(&self, amount: i128) -> bool {
        self.usdc_token is None || (refund_fee(amount) != 0 && self.access.roles.admin is None)
    }

    fn payout_for(&self, requester: &Address, amount: i128) -> (r: Result<RefundPayout, FluxaError>)
        ensures
            self.payout_blocked(amount) ==> r == Err::<RefundPayout, _>(FluxaError::Unauthorized),
            !self.payout_blocked(amount) ==> (r matches Ok(p) && payout_matches(
                p,
                self.usdc_token->0@,
                requester@,
                self.access.roles.admin_view()->0,
                amount,
            )),
    {
        let token = match &self.usdc_token {
            None => {
                return Err(FluxaError::Unauthorized);
            },
            Some(t) => t,
        };
        let fee = div_trunc(amount, 100);
        proof {
            lemma_fee_within(amount);
        }
        let fee_transfer = if fee == 0 {
            None
        } else {
            match &self.access.roles.admin {
                None => {
                    return Err(FluxaError::Unauthorized);
                },
                Some(admin) => Some(
                    TokenTransfer { token: copy_bytes(token), to: copy_bytes(admin), amount: fee },
                ),
            }
        };
        Ok(
            RefundPayout {
                payout: TokenTransfer {
                    token: copy_bytes(token),
                    to: copy_bytes(requester),
                    amount: amount - fee,
                },
                fee: fee_transfer,
            },
        )
    }

    /// Records the outcome of a refund transfer: when it went through, the
    /// pending refund becomes completed at `now`; when it failed, nothing
    /// changes. The result tells whether the refund was completed.
    pub fn finish_refund(&mut self, refund_id: &Text, transferred: bool, now: u64) -> (r: Result<
        bool,
        FluxaError,
    >)
        requires
            old(self).wf(),
        ensures
            final(self).wf(),
            refund_lifecycle_respected(old(self).refunds_map(), final(self).refunds_map()),
            dispute_lifecycle_respected(old(self).disputes_map(), final(self).disputes_map()),
            !(r matches Ok(true)) ==> *final(self) == *old(self),
            final(self).only_refunds_differ(old(self)),
            ({
                let refunds = old(self).refunds_map();
                let id = refund_id@;
                if !refunds.contains_key(id) {
                    r == Err::<bool, _>(FluxaError::RefundNotFound)
                } else if refunds[id].status != RefundStatus::Pending {
                    r == Err::<bool, _>(FluxaError::RefundAlreadyProcessed)
                } else if !transferred {
                    r == Ok::<bool, FluxaError>(false)
                } else {
                    &&& r == Ok::<bool, FluxaError>(true)
                    &&& final(self).refunds_map() == refunds.insert(
                        id,
                        Refund {
                            status: RefundStatus::Completed,
                            processed_at: Some(now),
                            ..refunds[id]
                        },
                    )
                    &&& final(self).payment_refunds == old(self).payment_refunds
                    &&& final(self).refund_counter == old(self).refund_counter
                }
            }),
            forall|p: Seq<u8>|
                refunded_total(#[trigger] final(self).refund_ids(p), final(self).refunds_map())
                    == refunded_total(old(self).refund_ids(p), old(self).refunds_map()),
    {
        let i = match find(&self.refunds, refund_id) {
            Some(i) => i,
            None => {
                return Err(FluxaError::RefundNotFound);
            },
        };
        if self.refunds[i].status != RefundStatus::Pending {
            return Err(FluxaError::RefundAlreadyProcessed);
        }
        if !transferred {
            return Ok(false);
        }
        let mut refund = take_at(&mut self.refunds, i);
        refund.status = RefundStatus::Completed;
        refund.processed_at = Some(now);
        put(&mut self.refunds, refund);
        proof {
            lemma_replace(old(self).refunds_map(), refund_id@, refund);
            assert forall|p: Seq<u8>|
                refunded_total(#[trigger] self.refund_ids(p), self.refunds_map()) == refunded_total(
                    old(self).refund_ids(p),
                    old(self).refunds_map(),
                ) by {
                assert(self.refund_ids(p) == old(self).refund_ids(p));
                lemma_completion_keeps_refunded_total(
                    old(self).refund_ids(p),
                    old(self).refunds_map(),
                    refund_id@,
                    refund,
                );
            }
        }
        Ok(true)
    }

    /// An operator rejects a pending refund at `now`.
    pub fn reject_refund(&mut self, operator: &Address, refund_id: &Text, now: u64) -> (r: Result<
        (),
        FluxaError,
    >)
        requires
            old(self).wf(),
        ensures
            final(self).wf(),
            refund_lifecycle_respected(old(self).refunds_map(), final(self).refunds_map()),
            dispute_lifecycle_respected(old(self).disputes_map(), final(self).disputes_map()),
            r is Err ==> *final(self) == *old(self),
            final(self).only_refunds_differ(old(self)),
            ({
                let refunds = old(self).refunds_map();
                let id = refund_id@;
                if !old(self).is_operator(operator@) {
                    r == Err::<(), _>(FluxaError::Unauthorized)
                } else if !refunds.contains_key(id) {
                    r == Err::<(), _>(FluxaError::RefundNotFound)
                } else if refunds[id].status != RefundStatus::Pending {
                    r == Err::<(), _>(FluxaError::RefundAlreadyProcessed)
                } else {
                    &&& r is Ok
                    &&& final(self).refunds_map() == refunds.insert(
                        id,
                        Refund {
                            status: RefundStatus::Rejected,
                            processed_at: Some(now),
                            ..refunds[id]
                        },
                    )
                    &&& final(self).payment_refunds == old(self).payment_refunds
                    &&& final(self).refund_counter == old(self).refund_counter
                }
            }),
    {
        if !self.operator_allowed(operator) {
            return Err(FluxaError::Unauthorized);
        }
        let i = match find(&self.refunds, refund_id) {
            Some(i) => i,
            None => {
                return Err(FluxaError::RefundNotFound);
            },
        };
        if self.refunds[i].status != RefundStatus::Pending {
            return Err(FluxaError::RefundAlreadyProcessed);
        }
        let mut refund = take_at(&mut self.refunds, i);
        refund.status = RefundStatus::Rejected;
        refund.processed_at = Some(now);
        put(&mut self.refunds, refund);
        proof {
            lemma_replace(old(self).refunds_map(), refund_id@, refund);
        }
        Ok(())
    }
}

/// A dispute as `create_dispute` stores it.
pub open spec fn new_dispute_matches(
    d: Dispute,
    dispute_id: Seq<u8>,
    payment_id: Seq<u8>,
    amount: i128,
    reason: Seq<u8>,
    evidence: Seq<u8>,
    disputer: Seq<u8>,
    now: u64,
) -> bool {
    &&& d.dispute_id@ == dispute_id
    &&& d.payment_id@ == payment_id
    &&& d.refund_id is None
    &&& d.amount == amount
    &&& d.reason@ == reason
    &&& d.evidence@ == evidence
    &&& d.status == DisputeStatus::Open
    &&& d.disputer@ == disputer
    &&& d.created_at == now
    &&& d.resolved_at is None
    &&& d.resolution_notes is None
}

/// Whether a dispute has been decided (resolved or rejected).
pub open spec fn is_closed(status: DisputeStatus) -> bool {
    status == DisputeStatus::Resolved || status == DisputeStatus::Rejected
}

fn dispute_refund_reason_bytes() -> (p: Vec<u8>)
    ensures
        p@ == dispute_refund_reason(),
{
    let p = vec![82u8, 101u8, 102u8, 117u8, 110u8, 100u8, 32u8, 105u8, 115u8, 115u8, 117u8, 101u8, 100u8, 32u8, 100u8, 117u8, 101u8, 32u8, 116u8, 111u8, 32u8, 100u8, 105u8, 115u8, 112u8, 117u8, 116u8, 101u8, 32u8, 114u8, 101u8, 115u8, 111u8, 108u8, 117u8, 116u8, 105u8, 111u8, 110u8];
    assert(p@ =~= dispute_refund_reason());
    p
}

impl RefundManager {
    /// Opens a dispute of `amount` against `payment_id`, numbered by the
    /// dispute counter (`dispute_1`, `dispute_2`, ...). The payment must be
    /// registered and the amount within it; with the refunds not rejected and
    /// the disputes not yet decided, it must not exceed the payment.
    pub fn create_dispute(
        &mut self,
        payment_id: Text,
        amount: i128,
        reason: Text,
        evidence: Text,
        disputer: Address,
        now: u64,
    ) -> (r: Result<Text, FluxaError>)
        requires
            old(self).wf(),
            amount > 0 && old(self).dispute_allowed(payment_id@, amount) is Ok
                ==> old(self).dispute_count() < u64::MAX,
        ensures
            final(self).wf(),
            refund_lifecycle_respected(old(self).refunds_map(), final(self).refunds_map()),
            dispute_lifecycle_respected(old(self).disputes_map(), final(self).disputes_map()),
            r is Err ==> *final(self) == *old(self),
            amount <= 0 ==> r == Err::<Text, _>(FluxaError::InvalidAmount),
            amount > 0 && old(self).dispute_allowed(payment_id@, amount) is Err ==> r == Err::<
                Text,
                _,
            >(old(self).dispute_allowed(payment_id@, amount)->Err_0),
            amount > 0 && old(self).dispute_allowed(payment_id@, amount) is Ok ==> {
                let n = (old(self).dispute_count() + 1) as u64;
                let id = format_id_spec(dispute_prefix(), n as nat);
                &&& r matches Ok(x) && x@ == id
                &&& !old(self).disputes_map().contains_key(id)
                &&& final(self).dispute_count() == n
                &&& final(self).disputes_map().dom() == old(self).disputes_map().dom().insert(id)
                &&& forall|k: Seq<u8>|
                    k != id ==> #[trigger] final(self).disputes_map().get(k) == old(self).disputes_map().get(k)
                &&& new_dispute_matches(
                    final(self).disputes_map()[id],
                    id,
                    payment_id@,
                    amount,
                    reason@,
                    evidence@,
                    disputer@,
                    now,
                )
                &&& forall|p: Seq<u8>|
                    #[trigger] final(self).dispute_ids(p) == if p == payment_id@ {
                        old(self).dispute_ids(p).push(id)
                    } else {
                        old(self).dispute_ids(p)
                    }
                &&& final(self).only_disputes_differ(old(self))
            },
    {
        if amount <= 0 {
            return Err(FluxaError::InvalidAmount);
        }
        if let Err(e) = self.check_dispute_allowed(&payment_id, amount) {
            return Err(e);
        }
        let counter: u64 = match self.dispute_counter {
            Some(n) => n,
            None => 0,
        };
        proof {
            lemma_next_id_fresh(self.disputes_map().dom(), dispute_prefix(), counter);
        }
        let counter = counter + 1;
        self.dispute_counter = Some(counter);
        let prefix = dispute_prefix_bytes();
        let dispute_id = format_id(prefix.as_slice(), counter);
        append_id(&mut self.payment_disputes, &payment_id, &dispute_id);
        let dispute = Dispute {
            dispute_id: copy_bytes(&dispute_id),
            payment_id,
            refund_id: None,
            amount,
            reason,
            evidence,
            status: DisputeStatus::Open,
            disputer,
            created_at: now,
            resolved_at: None,
            resolution_notes: None,
        };
        put(&mut self.disputes, dispute);
        Ok(dispute_id)
    }

    /// The dispute stored under `dispute_id`.
    pub fn get_dispute(&self, dispute_id: &Text) -> (r: Result<&Dispute, FluxaError>)
        requires
            self.wf(),
        ensures
            r is Ok <==> self.disputes_map().contains_key(dispute_id@),
            r matches Ok(x) ==> *x == self.disputes_map()[dispute_id@],
            r is Err ==> r == Err::<&Dispute, _>(FluxaError::DisputeNotFound),
    {
        match find(&self.disputes, dispute_id) {
            Some(i) => Ok(&self.disputes[i]),
            None => Err(FluxaError::DisputeNotFound),
        }
    }

    /// The disputes filed under `payment_id`, oldest first.
    pub fn get_payment_disputes(&self, payment_id: &Text) -> (out: Vec<&Dispute>)
        requires
            self.wf(),
        ensures
            out@.map_values(|x: &Dispute| *x) == records_for(
                self.dispute_ids(payment_id@),
                self.disputes_map(),
            ),
    {
        let ids = get_ids(&self.payment_disputes, payment_id);
        let ghost idv = crate::text::seq_view(ids@);
        let mut out: Vec<&Dispute> = Vec::new();
        let mut i: usize = 0;
        while i < ids.len()
            invariant
                self.wf(),
                i <= ids@.len(),
                idv == crate::text::seq_view(ids@),
                out@.map_values(|x: &Dispute| *x) == records_for(
                    idv.take(i as int),
                    self.disputes_map(),
                ),
            decreases ids.len() - i,
        {
            let ghost prev = out@;
            assert(idv.take(i as int + 1).drop_last() =~= idv.take(i as int));
            assert(idv.take(i as int + 1).last() == ids@[i as int]@);
            match find(&self.disputes, &ids[i]) {
                Some(j) => {
                    out.push(&self.disputes[j]);
                    assert(out@.map_values(|x: &Dispute| *x) =~= prev.map_values(|x: &Dispute| *x).push(
                        self.disputes@[j as int],
                    ));
                },
                None => {},
            }
            i = i + 1;
        }
        assert(idv.take(ids@.len() as int) =~= idv);
        out
    }

    /// An operator puts an open dispute under review.
    pub fn review_dispute(&mut self, operator: &Address, dispute_id: &Text) -> (r: Result<
        (),
        FluxaError,
    >)
        requires
            old(self).wf(),
        ensures
            final(self).wf(),
            refund_lifecycle_respected(old(self).refunds_map(), final(self).refunds_map()),
            dispute_lifecycle_respected(old(self).disputes_map(), final(self).disputes_map()),
            r is Err ==> *final(self) == *old(self),
            final(self).only_disputes_differ(old(self)),
            ({
                let ds = old(self).disputes_map();
                let id = dispute_id@;
                if !old(self).is_operator(operator@) {
                    r == Err::<(), _>(FluxaError::Unauthorized)
                } else if !ds.contains_key(id) {
                    r == Err::<(), _>(FluxaError::DisputeNotFound)
                } else if ds[id].status != DisputeStatus::Open {
                    r == Err::<(), _>(FluxaError::DisputeAlreadyResolved)
                } else {
                    &&& r is Ok
                    &&& final(self).disputes_map() == ds.insert(
                        id,
                        Dispute { status: DisputeStatus::UnderReview, ..ds[id] },
                    )
                    &&& final(self).payment_disputes == old(self).payment_disputes
                    &&& final(self).dispute_counter == old(self).dispute_counter
                }
            }),
            forall|p: Seq<u8>, s: Option<Seq<u8>>|
                #[trigger] disputed_total(final(self).dispute_ids(p), final(self).disputes_map(), s)
                    == disputed_total(old(self).dispute_ids(p), old(self).disputes_map(), s),
    {
        if !self.operator_allowed(operator) {
            return Err(FluxaError::Unauthorized);
        }
        let i = match find(&self.disputes, dispute_id) {
            Some(i) => i,
            None => {
                return Err(FluxaError::DisputeNotFound);
            },
        };
        if self.disputes[i].status != DisputeStatus::Open {
            return Err(FluxaError::DisputeAlreadyResolved);
        }
        let mut dispute = take_at(&mut self.disputes, i);
        dispute.status = DisputeStatus::UnderReview;
        put(&mut self.disputes, dispute);
        proof {
            lemma_replace(old(self).disputes_map(), dispute_id@, dispute);
            assert forall|p: Seq<u8>, s: Option<Seq<u8>>|
                #[trigger] disputed_total(self.dispute_ids(p), self.disputes_map(), s)
                    == disputed_total(old(self).dispute_ids(p), old(self).disputes_map(), s) by {
                assert(self.dispute_ids(p) == old(self).dispute_ids(p));
                lemma_review_keeps_disputed_total(
                    old(self).dispute_ids(p),
                    old(self).disputes_map(),
                    s,
                    dispute_id@,
                    dispute,
                );
            }
        }
        Ok(())
    }

    /// An operator rejects an undecided dispute at `now`, with notes.
    pub fn reject_dispute(
        &mut self,
        operator: &Address,
        dispute_id: &Text,
        resolution_notes: Text,
        now: u64,
    ) -> (r: Result<(), FluxaError>)
        requires
            old(self).wf(),
        ensures
            final(self).wf(),
            refund_lifecycle_respected(old(self).refunds_map(), final(self).refunds_map()),
            dispute_lifecycle_respected(old(self).disputes_map(), final(self).disputes_map()),
            r is Err ==> *final(self) == *old(self),
            final(self).only_disputes_differ(old(self)),
            ({
                let ds = old(self).disputes_map();
                let id = dispute_id@;
                if !old(self).is_operator(operator@) {
                    r == Err::<(), _>(FluxaError::Unauthorized)
                } else if !ds.contains_key(id) {
                    r == Err::<(), _>(FluxaError::DisputeNotFound)
                } else if is_closed(ds[id].status) {
                    r == Err::<(), _>(FluxaError::DisputeAlreadyResolved)
                } else {
                    &&& r is Ok
                    &&& final(self).disputes_map() == ds.insert(
                        id,
                        Dispute {
                            status: DisputeStatus::Rejected,
                            resolved_at: Some(now),
                            resolution_notes: Some(resolution_notes),
                            ..ds[id]
                        },
                    )
                    &&& final(self).disputes_map()[id].refund_id is None
                    &&& final(self).payment_disputes == old(self).payment_disputes
                    &&& final(self).dispute_counter == old(self).dispute_counter
                }
            }),
    {
        if !self.operator_allowed(operator) {
            return Err(FluxaError::Unauthorized);
        }
        let i = match find(&self.disputes, dispute_id) {
            Some(i) => i,
            None => {
                return Err(FluxaError::DisputeNotFound);
            },
        };
        if self.disputes[i].status == DisputeStatus::Resolved || self.disputes[i].status
            == DisputeStatus::Rejected {
            return Err(FluxaError::DisputeAlreadyResolved);
        }
        let mut dispute = take_at(&mut self.disputes, i);
        dispute.status = DisputeStatus::Rejected;
        dispute.resolved_at = Some(now);
        dispute.resolution_notes = Some(resolution_notes);
        put(&mut self.disputes, dispute);
        proof {
            lemma_replace(old(self).disputes_map(), dispute_id@, dispute);
        }
        Ok(())
    }

    /// Why `operator` may not resolve the dispute `id` with a refund, if it
    /// may not: the caller is no operator, the dispute is unknown or already
    /// decided, its amount is not positive, the refund would exceed the
    /// payment (the dispute itself no longer counting), or no payout can be
    /// made.
    pub open spec fn resolution_refusal(&self, operator: Seq<u8>, id: Seq<u8>) -> Option<FluxaError> {
        let ds = self.disputes_map();
        if !self.is_operator(operator) {
            Some(FluxaError::Unauthorized)
        } else if !ds.contains_key(id) {
            Some(FluxaError::DisputeNotFound)
        } else if is_closed(ds[id].status) {
            Some(FluxaError::DisputeAlreadyResolved)
        } else if ds[id].amount <= 0 {
            Some(FluxaError::InvalidAmount)
        } else if self.refund_allowed(ds[id].payment_id@, ds[id].amount, Some(id)) is Err {
            Some(self.refund_allowed(ds[id].payment_id@, ds[id].amount, Some(id))->Err_0)
        } else if self.payout_blocked(ds[id].amount) {
            Some(FluxaError::Unauthorized)
        } else {
            None
        }
    }

    /// A decided dispute (resolved or rejected) refuses every further
    /// resolution by an operator as already resolved, and files no refund;
    /// the refund counter plays no part in that refusal.
    pub proof fn lemma_decided_dispute_refuses_resolution(&self, operator: Seq<u8>, id: Seq<u8>)
        requires
            self.wf(),
            self.is_operator(operator),
            self.disputes_map().contains_key(id),
            is_closed(self.disputes_map()[id].status),
        ensures
            self.resolution_refusal(operator, id) == Some(FluxaError::DisputeAlreadyResolved),
    {
    }

    /// An operator's resolution of a known dispute is refused as already
    /// resolved exactly when the dispute is resolved or rejected. An open
    /// dispute or one under review, of positive amount, whose refund fits
    /// the payment (the dispute itself no longer counting) and can be paid
    /// out, is resolvable; a caller who is no operator, or an unknown
    /// dispute, is refused as such.
    pub proof fn lemma_resolution_refusal_meaning(&self, operator: Seq<u8>, id: Seq<u8>)
        requires
            self.wf(),
        ensures
            self.resolution_refusal(operator, id) == Some(FluxaError::DisputeAlreadyResolved) <==> (
            self.is_operator(operator) && self.disputes_map().contains_key(id) && (
            self.disputes_map()[id].status == DisputeStatus::Resolved
                || self.disputes_map()[id].status == DisputeStatus::Rejected)),
            self.is_operator(operator) && self.disputes_map().contains_key(id) && (
            self.disputes_map()[id].status == DisputeStatus::Open
                || self.disputes_map()[id].status == DisputeStatus::UnderReview)
                && self.disputes_map()[id].amount > 0 && self.refund_allowed(
                self.disputes_map()[id].payment_id@,
                self.disputes_map()[id].amount,
                Some(id),
            ) is Ok && !self.payout_blocked(self.disputes_map()[id].amount)
                ==> self.resolution_refusal(operator, id) is None,
            !self.is_operator(operator) ==> self.resolution_refusal(operator, id) == Some(
                FluxaError::Unauthorized,
            ),
            self.is_operator(operator) && !self.disputes_map().contains_key(id)
                ==> self.resolution_refusal(operator, id) == Some(FluxaError::DisputeNotFound),
    {
    }

    /// The refund cap is exact: a refund against an unregistered payment is
    /// refused as unknown; otherwise (away from the bounds of `i128`) it is
    /// allowed exactly when the refunds not rejected, the undecided disputes
    /// (but `skip`) and the refund itself come to at most the payment, and
    /// refused as exceeding it when they come to more.
    pub proof fn lemma_refund_cap_exact(&self, payment_id: Seq<u8>, amount: i128, skip: Option<Seq<u8>>)
        ensures
            !self.registered().contains_key(payment_id) ==> self.refund_allowed(
                payment_id,
                amount,
                skip,
            ) == Err::<(), FluxaError>(FluxaError::PaymentNotFound),
            ({
                let held = refunded_total(self.refund_ids(payment_id), self.refunds_map())
                    + disputed_total(self.dispute_ids(payment_id), self.disputes_map(), skip);
                self.registered().contains_key(payment_id) && i128::MIN <= held <= i128::MAX
                    && i128::MIN <= held + amount <= i128::MAX ==> {
                    &&& (self.refund_allowed(payment_id, amount, skip) is Ok <==> held + amount
                        <= self.registered()[payment_id].amount)
                    &&& (held + amount > self.registered()[payment_id].amount ==> self.refund_allowed(
                        payment_id,
                        amount,
                        skip,
                    ) == Err::<(), FluxaError>(FluxaError::RefundExceedsPayment))
                }
            }),
    {
    }

    /// The dispute cap is exact: a dispute against an unregistered payment
    /// is refused as unknown, one above the payment as an invalid amount;
    /// otherwise (away from the bounds of `i128`) it is allowed exactly when
    /// the refunds not rejected, the undecided disputes and the dispute
    /// itself come to at most the payment, and refused as exceeding it when
    /// they come to more.
    pub proof fn lemma_dispute_cap_exact(&self, payment_id: Seq<u8>, amount: i128)
        ensures
            !self.registered().contains_key(payment_id) ==> self.dispute_allowed(payment_id, amount)
                == Err::<(), FluxaError>(FluxaError::PaymentNotFound),
            self.registered().contains_key(payment_id) && amount > self.registered()[payment_id].amount
                ==> self.dispute_allowed(payment_id, amount) == Err::<(), FluxaError>(
                FluxaError::InvalidAmount,
            ),
            ({
                let held = refunded_total(self.refund_ids(payment_id), self.refunds_map())
                    + disputed_total(self.dispute_ids(payment_id), self.disputes_map(), None);
                self.registered().contains_key(payment_id) && amount
                    <= self.registered()[payment_id].amount && i128::MIN <= held <= i128::MAX
                    && i128::MIN <= held + amount <= i128::MAX ==> {
                    &&& (self.dispute_allowed(payment_id, amount) is Ok <==> held + amount
                        <= self.registered()[payment_id].amount)
                    &&& (held + amount > self.registered()[payment_id].amount
                        ==> self.dispute_allowed(payment_id, amount) == Err::<(), FluxaError>(
                        FluxaError::RefundExceedsPayment,
                    ))
                }
            }),
    {
    }

    /// Why `operator` may not resolve `dispute_id` with a refund, if it may
    /// not.
    pub fn check_resolution(&self, operator: &Address, dispute_id: &Text) -> (r: Option<FluxaError>)
        requires
            self.wf(),
        ensures
            r == self.resolution_refusal(operator@, dispute_id@),
    {
        if !self.operator_allowed(operator) {
            return Some(FluxaError::Unauthorized);
        }
        let i = match find(&self.disputes, dispute_id) {
            Some(i) => i,
            None => {
                return Some(FluxaError::DisputeNotFound);
            },
        };
        let d = &self.disputes[i];
        if d.status == DisputeStatus::Resolved || d.status == DisputeStatus::Rejected {
            return Some(FluxaError::DisputeAlreadyResolved);
        }
        if d.amount <= 0 {
            return Some(FluxaError::InvalidAmount);
        }
        if let Err(e) = self.check_refund_allowed(&d.payment_id, d.amount, Some(dispute_id)) {
            return Some(e);
        }
        if self.usdc_token.is_none() || (div_trunc(d.amount, 100) != 0 && self.access.roles.admin.is_none()) {
            return Some(FluxaError::Unauthorized);
        }
        None
    }

    /// An operator resolves an undecided dispute in the disputer's favour: a
    /// refund of the disputed amount to the disputer is filed (as
    /// `create_refund` does, the dispute itself no longer counting against
    /// the payment) and the dispute becomes resolved at `now`, with the
    /// refund id and notes. Returns the refund id and the refund transfers
    /// to make; `finish_refund` records whether they went through.
    pub fn resolve_dispute_with_refund(
        &mut self,
        operator: &Address,
        dispute_id: &Text,
        resolution_notes: Text,
        now: u64,
    ) -> (r: Result<(Text, RefundPayout), FluxaError>)
        requires
            old(self).wf(),
            old(self).resolution_refusal(operator@, dispute_id@) is None
                ==> old(self).refund_count() < u64::MAX,
        ensures
            final(self).wf(),
            refund_lifecycle_respected(old(self).refunds_map(), final(self).refunds_map()),
            dispute_lifecycle_respected(old(self).disputes_map(), final(self).disputes_map()),
            r is Err ==> *final(self) == *old(self),
            final(self).access == old(self).access,
            final(self).usdc_token == old(self).usdc_token,
            final(self).payments == old(self).payments,
            old(self).resolution_refusal(operator@, dispute_id@) matches Some(e) ==> r == Err::<
                (Text, RefundPayout),
                _,
            >(e),
            old(self).resolution_refusal(operator@, dispute_id@) is None ==> {
                let ds = old(self).disputes_map();
                let id = dispute_id@;
                let d = ds[id];
                let rid = r->Ok_0.0@;
                &&& r is Ok
                &&& payout_matches(
                    r->Ok_0.1,
                    old(self).usdc_token->0@,
                    d.disputer@,
                    old(self).access.roles.admin_view()->0,
                    d.amount,
                )
                &&& final(self).refund_filed(
                    old(self),
                    rid,
                    d.payment_id@,
                    d.amount,
                    dispute_refund_reason(),
                    d.disputer@,
                    now,
                )
                &&& refunded_total(final(self).refund_ids(d.payment_id@), final(self).refunds_map())
                    <= final(self).registered()[d.payment_id@].amount
                &&& final(self).disputes_map().dom() == ds.dom()
                &&& forall|k: Seq<u8>|
                    k != id ==> #[trigger] final(self).disputes_map().get(k) == ds.get(k)
                &&& final(self).disputes_map()[id] == Dispute {
                    status: DisputeStatus::Resolved,
                    refund_id: final(self).disputes_map()[id].refund_id,
                    resolved_at: Some(now),
                    resolution_notes: Some(resolution_notes),
                    ..d
                }
                &&& crate::text::opt_view(final(self).disputes_map()[id].refund_id) == Some(rid)
                &&& final(self).payment_disputes == old(self).payment_disputes
                &&& final(self).dispute_counter == old(self).dispute_counter
            },
    {
        if let Some(e) = self.check_resolution(operator, dispute_id) {
            return Err(e);
        }
        let i = match find(&self.disputes, dispute_id) {
            Some(i) => i,
            None => {
                return Err(FluxaError::DisputeNotFound);
            },
        };
        let payout = match self.payout_for(&self.disputes[i].disputer, self.disputes[i].amount) {
            Ok(p) => p,
            Err(e) => {
                return Err(e);
            },
        };
        let ghost d = self.disputes@[i as int];
        proof {
            lemma_disputed_total_nonneg(
                self.dispute_ids(d.payment_id@),
                self.disputes_map(),
                Some(dispute_id@),
            );
        }
        let payment_id = copy_bytes(&self.disputes[i].payment_id);
        let amount = self.disputes[i].amount;
        let disputer = copy_bytes(&self.disputes[i].disputer);
        let refund_id = self.file_refund(payment_id, amount, dispute_refund_reason_bytes(), disputer, now);
        let ghost mid = *self;
        let mut dispute = take_at(&mut self.disputes, i);
        dispute.status = DisputeStatus::Resolved;
        dispute.refund_id = Some(copy_bytes(&refund_id));
        dispute.resolved_at = Some(now);
        dispute.resolution_notes = Some(resolution_notes);
        put(&mut self.disputes, dispute);
        proof {
            lemma_replace(old(self).disputes_map(), dispute_id@, dispute);
            assert(self.payment_refunds == mid.payment_refunds);
            assert forall|p: Seq<u8>| #[trigger] self.refund_ids(p) == mid.refund_ids(p) by {}
        }
        Ok((refund_id, payout))
    }
}

} // verus!

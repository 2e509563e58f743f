//! The payment processor: payment charges and their lifecycle
//! (pending, then confirmed, partially paid, overpaid, failed or expired;
//! a confirmed one is then settled), the
//! per-merchant payment index, and the storage lifetime of each record.
use vstd::prelude::*;

use crate::access_control::{
    admin_role, oracle_role, role_oracle, role_settlement_operator, settlement_operator_role,
    with_grant, AccessControl,
};
use crate::store::{
    append_id, as_map, find, get_ids, ids_under, lemma_map_from_lookups, lemma_remove_at, put,
    unique_keys, IdIndex, Keyed,
};
use crate::payment_link::{capped_pow10, pow10_capped};
use crate::text::{
    bytes_eq, copy_bytes, is_zero_address, seq_view, zero_contract_address, Address, Symbol, Text,
};

verus! {

/// Storage lifetime, in ledgers, of a pending payment (about a week).
pub const SHORT_LIVE_TTL: u32 = 120_960;

/// Storage lifetime, in ledgers, of a payment past the pending state and of
/// the merchant index (about three years).
pub const LONG_LIVE_TTL: u32 = 18_921_600;

/// A record's lifetime is extended once it falls below this fraction of the
/// target lifetime.
pub const TTL_BUMP_THRESHOLD_DIVISOR: u32 = 5;

/// Errors of the payment processor and the refund manager.
#[derive(Clone, Copy, Debug, PartialEq, Eq, Structural)]
pub enum FluxaError {
    PaymentNotFound,
    PaymentAlreadyExists,
    InvalidAmount,
    AccessControlError,
    PaymentExpired,
    PaymentAlreadyProcessed,
    InvalidPaymentId,
    RefundNotFound,
    RefundAlreadyProcessed,
    Unauthorized,
    DisputeNotFound,
    DisputeAlreadyResolved,
    InvalidExpiry,
    InvalidAddress,
    RefundExceedsPayment,
}

/// Where a payment charge stands.
#[derive(Clone, Copy, Debug, PartialEq, Eq, Structural)]
pub enum PaymentStatus {
    Pending,
    Confirmed,
    Settled,
    Expired,
    Failed,
    PartiallyPaid,
    Overpaid,
}

/// A payment charge that a customer fulfils by paying the deposit address.
#[derive(Debug, PartialEq, Eq)]
pub struct PaymentCharge {
    pub payment_id: Text,
    pub merchant_id: Address,
    pub amount: i128,
    pub currency: Symbol,
    pub deposit_address: Address,
    pub status: PaymentStatus,
    pub payer_address: Option<Address>,
    pub transaction_hash: Option<Vec<u8>>,
    pub created_at: u64,
    pub confirmed_at: Option<u64>,
    pub expires_at: u64,
    pub amount_received: Option<i128>,
    pub memo: Option<Text>,
    pub memo_type: Option<Text>,
    pub token_address: Option<Address>,
    pub metadata_hash: Option<Vec<u8>>,
    pub original_token: Option<Address>,
    pub swap_path: Option<Vec<Address>>,
    pub fx_rate: Option<i128>,
    pub fx_rate_at: Option<u64>,
    pub metadata: Option<Vec<(Text, Text)>>,
}

impl Keyed for PaymentCharge {
    type Key = Text;

    type KV = Seq<u8>;

    open spec fn key_of(&self) -> Seq<u8> {
        self.payment_id@
    }

    open spec fn key_view(k: &Text) -> Seq<u8> {
        k@
    }

    fn same_key(&self, other: &Self) -> (b: bool) {
        bytes_eq(&self.payment_id, &other.payment_id)
    }

    fn has_key(&self, k: &Text) -> (b: bool) {
        bytes_eq(&self.payment_id, k)
    }
}

/// The storage lifetime, in ledgers, that a payment in `status` is kept for.
pub open spec fn spec_payment_ttl(status: PaymentStatus) -> u32 {
    match status {
        PaymentStatus::Pending => SHORT_LIVE_TTL,
        _ => LONG_LIVE_TTL,
    }
}

/// The remaining lifetime below which a record's lifetime is extended to `ttl`.
pub open spec fn spec_bump_threshold(ttl: u32) -> u32 {
    let t = ttl / TTL_BUMP_THRESHOLD_DIVISOR;
    if t < 1 {
        1
    } else {
        t
    }
}

/// A payment charge as `create_payment` stores it.
pub open spec fn new_charge_matches(
    p: PaymentCharge,
    payment_id: Seq<u8>,
    merchant_id: Seq<u8>,
    amount: i128,
    currency: Seq<u8>,
    deposit_address: Seq<u8>,
    expires_at: u64,
    now: u64,
) -> bool {
    &&& p.payment_id@ == payment_id
    &&& p.merchant_id@ == merchant_id
    &&& p.amount == amount
    &&& p.currency@ == currency
    &&& p.deposit_address@ == deposit_address
    &&& p.status == PaymentStatus::Pending
    &&& p.payer_address is None
    &&& p.transaction_hash is None
    &&& p.created_at == now
    &&& p.confirmed_at is None
    &&& p.expires_at == expires_at
    &&& p.amount_received is None
    &&& p.memo is None
    &&& p.memo_type is None
    &&& p.token_address is None
    &&& p.metadata_hash is None
    &&& p.original_token is None
    &&& p.swap_path is None
    &&& p.fx_rate is None
    &&& p.fx_rate_at is None
    &&& p.metadata is None
}

/// Whether a payment can come from status `from` to status `to` along the
/// lifecycle: a pending payment is confirmed, partially paid, overpaid,
/// fails or expires, and a confirmed one is settled.
pub open spec fn status_may_follow(from: PaymentStatus, to: PaymentStatus) -> bool {
    ||| from == to
    ||| from == PaymentStatus::Pending
    ||| from == PaymentStatus::Confirmed && to == PaymentStatus::Settled
}

/// Every payment of `before` is still in `after`, with a status that may
/// follow its earlier one.
pub open spec fn lifecycle_respected(
    before: Map<Seq<u8>, PaymentCharge>,
    after: Map<Seq<u8>, PaymentCharge>,
) -> bool {
    forall|k: Seq<u8>|
        #[trigger] before.contains_key(k) ==> after.contains_key(k) && status_may_follow(
            before[k].status,
            after[k].status,
        )
}

/// A settled, failed, expired, partially paid or overpaid payment keeps its
/// status for good.
pub proof fn lemma_final_statuses_stay(from: PaymentStatus, to: PaymentStatus)
    requires
        from == PaymentStatus::Settled || from == PaymentStatus::Failed || from
            == PaymentStatus::Expired || from == PaymentStatus::PartiallyPaid || from
            == PaymentStatus::Overpaid,
        status_may_follow(from, to),
    ensures
        to == from,
{
}

/// Steps that each respect the payment lifecycle respect it together, so
/// any run of payment-processor operations does.
pub proof fn lemma_lifecycle_chains(
    a: Map<Seq<u8>, PaymentCharge>,
    b: Map<Seq<u8>, PaymentCharge>,
    c: Map<Seq<u8>, PaymentCharge>,
)
    requires
        lifecycle_respected(a, b),
        lifecycle_respected(b, c),
    ensures
        lifecycle_respected(a, c),
{
    assert forall|k: Seq<u8>| #[trigger] a.contains_key(k) implies c.contains_key(k)
        && status_may_follow(a[k].status, c[k].status) by {
        assert(b.contains_key(k));
    }
}

/// How far a received amount may be from the charged amount and still
/// count as the exact amount: one unit for a token of at most six decimals,
/// `10^(decimals - 6)` units beyond that (capped at the largest `i128`).
pub open spec fn payment_tolerance(decimals: u32) -> i128 {
    if decimals <= 6 {
        1
    } else {
        capped_pow10((decimals - 6) as u32)
    }
}

/// The status a pending payment of `amount` takes when `received` arrives:
/// partially paid below the tolerance, overpaid above it, confirmed within
/// it.
pub open spec fn verified_status(amount: i128, received: i128, tolerance: i128) -> PaymentStatus {
    if received < amount && amount - received > tolerance {
        PaymentStatus::PartiallyPaid
    } else if received > amount && received - amount > tolerance {
        PaymentStatus::Overpaid
    } else {
        PaymentStatus::Confirmed
    }
}

/// The entries `offset .. offset + limit` of `all` (fewer at the end; none
/// when `limit` is zero).
pub open spec fn page_of(all: Seq<Seq<u8>>, offset: u32, limit: u32) -> Seq<Seq<u8>> {
    let end = if all.len() < offset + limit {
        all.len() as int
    } else {
        offset + limit
    };
    if limit == 0 || offset >= end {
        Seq::empty()
    } else {
        all.subrange(offset as int, end)
    }
}

/// The storage lifetime, in ledgers, that a payment in `status` is kept for:
/// short while pending, long once it has moved on.
pub fn payment_ttl(status: &PaymentStatus) -> (ttl: u32)
    ensures
        ttl == spec_payment_ttl(*status),
{
    match status {
        PaymentStatus::Pending => SHORT_LIVE_TTL,
        PaymentStatus::Confirmed | PaymentStatus::Settled | PaymentStatus::Expired
        | PaymentStatus::Failed | PaymentStatus::PartiallyPaid | PaymentStatus::Overpaid => {
            LONG_LIVE_TTL
        },
    }
}

/// The remaining lifetime below which a record is extended to `ttl`: a fifth
/// of `ttl`, and at least one ledger.
pub fn bump_threshold(ttl: u32) -> (t: u32)
    ensures
        t == spec_bump_threshold(ttl),
        1 <= t <= if ttl < 1 { 1 } else { ttl },
{
    let t = ttl / TTL_BUMP_THRESHOLD_DIVISOR;
    if t < 1 {
        1
    } else {
        t
    }
}

/// The payment processor contract state.
#[derive(Debug)]
pub struct PaymentProcessor {
    pub access: AccessControl,
    pub payments: Vec<PaymentCharge>,
    pub merchant_payments: Vec<IdIndex>,
}

impl PaymentProcessor {
    /// The store invariant.
    pub open spec fn wf(&self) -> bool {
        &&& self.access.wf()
        &&& unique_keys(self.payments@)
        &&& unique_keys(self.merchant_payments@)
    }

    /// Stored payments by id.
    pub open spec fn payments_map(&self) -> Map<Seq<u8>, PaymentCharge> {
        as_map(self.payments@)
    }

    /// The payment ids of a merchant, oldest first.
    pub open spec fn merchant_ids(&self, merchant: Seq<u8>) -> Seq<Seq<u8>> {
        ids_under(self.merchant_payments@, merchant)
    }

    /// Whether `account` may verify payments (oracle or settlement operator).
    pub open spec fn is_verifier(&self, account: Seq<u8>) -> bool {
        self.access.holds(oracle_role(), account) || self.access.holds(
            settlement_operator_role(),
            account,
        )
    }

    /// A processor with nothing stored.
    pub fn new() -> (pp: Self)
        ensures
            pp.wf(),
            pp.payments_map() == Map::<Seq<u8>, PaymentCharge>::empty(),
            pp.access.is_fresh(),
            forall|m: Seq<u8>| #[trigger] pp.merchant_ids(m) == Seq::<Seq<u8>>::empty(),
    {
        let pp = PaymentProcessor {
            access: AccessControl::new(),
            payments: Vec::new(),
            merchant_payments: Vec::new(),
        };
        assert(pp.payments_map() =~= Map::<Seq<u8>, PaymentCharge>::empty());
        pp
    }

    /// Sets up access control with `admin` as administrator; the zero
    /// contract address is refused.
    pub fn initialize_payment_processor(&mut self, admin: Address) -> (r: Result<(), FluxaError>)
        requires
            old(self).wf(),
        ensures
            final(self).wf(),
            lifecycle_respected(old(self).payments_map(), final(self).payments_map()),
            r is Err <==> admin@ == zero_contract_address(),
            r is Err ==> r == Err::<(), _>(FluxaError::InvalidAddress) && *final(self) == *old(self),
            r is Ok ==> final(self).access.roles.admin_view() == Some(admin@),
            r is Ok ==> final(self).access.roles.pairs() == with_grant(
                old(self).access.roles.pairs(),
                (admin_role(), admin@),
            ),
            final(self).payments == old(self).payments,
            final(self).merchant_payments == old(self).merchant_payments,
    {
        if is_zero_address(&admin) {
            return Err(FluxaError::InvalidAddress);
        }
        self.access.initialize(admin);
        Ok(())
    }

    /// The admin grants `role` to `account`; any refusal is reported as
    /// `AccessControlError`.
    pub fn payment_grant_role(&mut self, admin: &Address, role: Symbol, account: Address) -> (r:
        Result<(), FluxaError>)
        requires
            old(self).wf(),
        ensures
            final(self).wf(),
            r is Err ==> *final(self) == *old(self),
            r is Ok <==> old(self).access.is_admin(admin@) && !old(self).access.holds(
                role@,
                account@,
            ),
            r is Err ==> r == Err::<(), _>(FluxaError::AccessControlError),
            r is Ok ==> final(self).access.roles.pairs() == old(self).access.roles.pairs().push(
                (role@, account@),
            ),
            final(self).access.roles.admin == old(self).access.roles.admin,
            final(self).access.revocations == old(self).access.revocations,
            final(self).access.transfer == old(self).access.transfer,
            final(self).access.multisig == old(self).access.multisig,
            final(self).payments == old(self).payments,
            final(self).merchant_payments == old(self).merchant_payments,
    {
        match self.access.grant_role(admin, role, account) {
            Ok(()) => Ok(()),
            Err(_) => Err(FluxaError::AccessControlError),
        }
    }

    /// The payment stored under `payment_id`.
    pub fn get_payment(&self, payment_id: &Text) -> (r: Result<&PaymentCharge, FluxaError>)
        requires
            self.wf(),
        ensures
            r is Ok <==> self.payments_map().contains_key(payment_id@),
            r matches Ok(p) ==> *p == self.payments_map()[payment_id@],
            r is Err ==> r == Err::<&PaymentCharge, _>(FluxaError::PaymentNotFound),
    {
        match find(&self.payments, payment_id) {
            Some(i) => Ok(&self.payments[i]),
            None => Err(FluxaError::PaymentNotFound),
        }
    }

    /// The payment ids created by `merchant_id`, oldest first.
    pub fn get_merchant_payments(&self, merchant_id: &Address) -> (ids: Vec<Text>)
        requires
            self.wf(),
        ensures
            seq_view(ids@) == self.merchant_ids(merchant_id@),
    {
        get_ids(&self.merchant_payments, merchant_id)
    }

    /// At most `limit` of a merchant's payment ids, starting at position
    /// `offset` of the oldest-first list.
    pub fn get_merchant_payments_paginated(&self, merchant_id: &Address, offset: u32, limit: u32) -> (page:
        Vec<Text>)
        requires
            self.wf(),
            self.merchant_ids(merchant_id@).len() <= u32::MAX,
        ensures
            seq_view(page@) == page_of(self.merchant_ids(merchant_id@), offset, limit),
    {
        let all = self.get_merchant_payments(merchant_id);
        let mut page: Vec<Text> = Vec::new();
        if limit == 0 {
            assert(seq_view(page@) =~= Seq::<Seq<u8>>::empty());
            return page;
        }
        let len = all.len() as u32;
        let end: u32 = if (offset as u64 + limit as u64) > len as u64 {
            len
        } else {
            offset + limit
        };
        if offset >= end {
            assert(seq_view(page@) =~= Seq::<Seq<u8>>::empty());
            return page;
        }
        let mut i: u32 = offset;
        while i < end
            invariant
                offset <= i <= end,
                end <= all@.len(),
                seq_view(page@) =~= seq_view(all@).subrange(offset as int, i as int),
            decreases end - i,
        {
            let item = copy_bytes(&all[i as usize]);
            let ghost prev = page@;
            page.push(item);
            assert(seq_view(page@) =~= seq_view(prev).push(item@));
            i = i + 1;
        }
        page
    }
}

impl PaymentProcessor {
    /// The merchant creates a pending payment charge of `amount` that expires
    /// at `expires_at`, and it is added to the merchant's payment list. The
    /// charge as stored is returned.
    pub fn create_payment(
        &mut self,
        payment_id: Text,
        merchant_id: Address,
        amount: i128,
        currency: Symbol,
        deposit_address: Address,
        expires_at: u64,
        now: u64,
    ) -> (r: Result<PaymentCharge, FluxaError>)
        requires
            old(self).wf(),
        ensures
            final(self).wf(),
            lifecycle_respected(old(self).payments_map(), final(self).payments_map()),
            r is Err ==> *final(self) == *old(self),
            amount <= 0 ==> r == Err::<PaymentCharge, _>(FluxaError::InvalidAmount),
            amount > 0 && expires_at <= now ==> r == Err::<PaymentCharge, _>(FluxaError::InvalidExpiry),
            amount > 0 && expires_at > now && old(self).payments_map().contains_key(payment_id@)
                ==> r == Err::<PaymentCharge, _>(FluxaError::PaymentAlreadyExists),
            amount > 0 && expires_at > now && !old(self).payments_map().contains_key(payment_id@)
                && payment_id@.len() == 0 ==> r == Err::<PaymentCharge, _>(FluxaError::InvalidPaymentId),
            amount > 0 && expires_at > now && !old(self).payments_map().contains_key(payment_id@)
                && payment_id@.len() > 0 ==> {
                &&& r matches Ok(p) && new_charge_matches(
                    p,
                    payment_id@,
                    merchant_id@,
                    amount,
                    currency@,
                    deposit_address@,
                    expires_at,
                    now,
                )
                &&& final(self).payments_map().dom() == old(self).payments_map().dom().insert(
                    payment_id@,
                )
                &&& forall|k: Seq<u8>|
                    k != payment_id@ ==> #[trigger] final(self).payments_map().get(k) == old(self).payments_map().get(k)
                &&& new_charge_matches(
                    final(self).payments_map()[payment_id@],
                    payment_id@,
                    merchant_id@,
                    amount,
                    currency@,
                    deposit_address@,
                    expires_at,
                    now,
                )
                &&& forall|m: Seq<u8>|
                    #[trigger] final(self).merchant_ids(m) == if m == merchant_id@ {
                        old(self).merchant_ids(m).push(payment_id@)
                    } else {
                        old(self).merchant_ids(m)
                    }
                &&& final(self).access == old(self).access
            },
    {
        if amount <= 0 {
            return Err(FluxaError::InvalidAmount);
        }
        if expires_at <= now {
            return Err(FluxaError::InvalidExpiry);
        }
        if find(&self.payments, &payment_id).is_some() {
            return Err(FluxaError::PaymentAlreadyExists);
        }
        if payment_id.len() == 0 {
            return Err(FluxaError::InvalidPaymentId);
        }
        append_id(&mut self.merchant_payments, &merchant_id, &payment_id);
        let ghost mid_self = PaymentProcessor {
            access: self.access,
            payments: self.payments,
            merchant_payments: self.merchant_payments,
        };
        let created = PaymentCharge {
            payment_id: copy_bytes(&payment_id),
            merchant_id: copy_bytes(&merchant_id),
            amount,
            currency: copy_bytes(&currency),
            deposit_address: copy_bytes(&deposit_address),
            status: PaymentStatus::Pending,
            payer_address: None,
            transaction_hash: None,
            created_at: now,
            confirmed_at: None,
            expires_at,
            amount_received: None,
            memo: None,
            memo_type: None,
            token_address: None,
            metadata_hash: None,
            original_token: None,
            swap_path: None,
            fx_rate: None,
            fx_rate_at: None,
            metadata: None,
        };
        let payment = PaymentCharge {
            payment_id,
            merchant_id,
            amount,
            currency,
            deposit_address,
            status: PaymentStatus::Pending,
            payer_address: None,
            transaction_hash: None,
            created_at: now,
            confirmed_at: None,
            expires_at,
            amount_received: None,
            memo: None,
            memo_type: None,
            token_address: None,
            metadata_hash: None,
            original_token: None,
            swap_path: None,
            fx_rate: None,
            fx_rate_at: None,
            metadata: None,
        };
        put(&mut self.payments, payment);
        assert forall|m: Seq<u8>| #[trigger] self.merchant_ids(m) == mid_self.merchant_ids(m) by {}
        Ok(created)
    }

    /// An oracle or settlement operator reports a payment of
    /// `amount_received` for a pending, unexpired charge, which is recorded;
    /// `token_decimals` are the decimals of the token paid in. Within the
    /// tolerance of the charged amount the charge becomes confirmed, with
    /// payer, transaction hash and confirmation time; below it, partially
    /// paid; above it, overpaid. The new status is returned.
    pub fn verify_payment(
        &mut self,
        oracle: &Address,
        payment_id: &Text,
        transaction_hash: Vec<u8>,
        payer_address: Address,
        amount_received: i128,
        token_decimals: u32,
        now: u64,
    ) -> (r: Result<PaymentStatus, FluxaError>)
        requires
            old(self).wf(),
        ensures
            final(self).wf(),
            lifecycle_respected(old(self).payments_map(), final(self).payments_map()),
            r is Err ==> *final(self) == *old(self),
            final(self).access == old(self).access,
            final(self).merchant_payments == old(self).merchant_payments,
            ({
                let pays = old(self).payments_map();
                let id = payment_id@;
                if !old(self).is_verifier(oracle@) {
                    r == Err::<PaymentStatus, _>(FluxaError::Unauthorized)
                } else if !pays.contains_key(id) {
                    r == Err::<PaymentStatus, _>(FluxaError::PaymentNotFound)
                } else if pays[id].status != PaymentStatus::Pending {
                    r == Err::<PaymentStatus, _>(FluxaError::PaymentAlreadyProcessed)
                } else if now > pays[id].expires_at {
                    r == Err::<PaymentStatus, _>(FluxaError::PaymentExpired)
                } else {
                    let status = verified_status(
                        pays[id].amount,
                        amount_received,
                        payment_tolerance(token_decimals),
                    );
                    &&& r == Ok::<_, FluxaError>(status)
                    &&& final(self).payments_map() == pays.insert(
                        id,
                        if status == PaymentStatus::Confirmed {
                            PaymentCharge {
                                status: PaymentStatus::Confirmed,
                                amount_received: Some(amount_received),
                                payer_address: Some(payer_address),
                                transaction_hash: Some(transaction_hash),
                                confirmed_at: Some(now),
                                ..pays[id]
                            }
                        } else {
                            PaymentCharge {
                                status,
                                amount_received: Some(amount_received),
                                ..pays[id]
                            }
                        },
                    )
                }
            }),
    {
        if !self.access.has_role(&role_oracle(), oracle) && !self.access.has_role(
            &role_settlement_operator(),
            oracle,
        ) {
            return Err(FluxaError::Unauthorized);
        }
        let i = match find(&self.payments, payment_id) {
            Some(i) => i,
            None => {
                return Err(FluxaError::PaymentNotFound);
            },
        };
        if self.payments[i].status != PaymentStatus::Pending {
            return Err(FluxaError::PaymentAlreadyProcessed);
        }
        if now > self.payments[i].expires_at {
            return Err(FluxaError::PaymentExpired);
        }
        let tolerance: i128 = if token_decimals <= 6 {
            1
        } else {
            pow10_capped(token_decimals - 6)
        };
        let mut payment = self.payments.remove(i);
        proof {
            lemma_remove_at(old(self).payments@, i as int);
            lemma_map_from_lookups(old(self).payments@, self.payments@, payment_id@, None);
        }
        let amount = payment.amount;
        let short = amount_received < amount && match amount.checked_sub(amount_received) {
            Some(d) => d > tolerance,
            None => true,
        };
        let over = amount_received > amount && match amount_received.checked_sub(amount) {
            Some(d) => d > tolerance,
            None => true,
        };
        payment.amount_received = Some(amount_received);
        let status = if short {
            PaymentStatus::PartiallyPaid
        } else if over {
            PaymentStatus::Overpaid
        } else {
            payment.payer_address = Some(payer_address);
            payment.transaction_hash = Some(transaction_hash);
            payment.confirmed_at = Some(now);
            PaymentStatus::Confirmed
        };
        payment.status = status;
        put(&mut self.payments, payment);
        proof {
            assert(old(self).payments_map().remove(payment_id@).insert(payment_id@, payment)
                =~= old(self).payments_map().insert(payment_id@, payment));
        }
        Ok(status)
    }
}

impl PaymentProcessor {
    /// Sets the status of the payment at position `i`.
    fn set_payment_status(&mut self, i: usize, status: PaymentStatus)
        requires
            old(self).wf(),
            i < old(self).payments@.len(),
        ensures
            final(self).wf(),
            final(self).payments_map() == old(self).payments_map().insert(
                old(self).payments@[i as int].payment_id@,
                PaymentCharge { status, ..old(self).payments@[i as int] },
            ),
            final(self).access == old(self).access,
            final(self).merchant_payments == old(self).merchant_payments,
    {
        let ghost id = self.payments@[i as int].payment_id@;
        let mut payment = self.payments.remove(i);
        proof {
            lemma_remove_at(old(self).payments@, i as int);
            lemma_map_from_lookups(old(self).payments@, self.payments@, id, None);
        }
        payment.status = status;
        put(&mut self.payments, payment);
        proof {
            assert(old(self).payments_map().remove(id).insert(id, payment) =~= old(self).payments_map().insert(id, payment));
        }
    }

    /// The merchant or an oracle cancels a pending payment before it expires;
    /// the payment is marked failed. A pending payment already past its
    /// expiry time is marked expired instead.
    pub fn cancel_payment(&mut self, authority: &Address, payment_id: &Text, now: u64) -> (r: Result<
        (),
        FluxaError,
    >)
        requires
            old(self).wf(),
        ensures
            final(self).wf(),
            lifecycle_respected(old(self).payments_map(), final(self).payments_map()),
            r is Err ==> *final(self) == *old(self),
            final(self).access == old(self).access,
            final(self).merchant_payments == old(self).merchant_payments,
            ({
                let pays = old(self).payments_map();
                let id = payment_id@;
                if !pays.contains_key(id) {
                    r == Err::<(), _>(FluxaError::PaymentNotFound)
                } else if pays[id].status != PaymentStatus::Pending {
                    r == Err::<(), _>(FluxaError::PaymentAlreadyProcessed)
                } else if now > pays[id].expires_at {
                    &&& r is Ok
                    &&& final(self).payments_map() == pays.insert(
                        id,
                        PaymentCharge { status: PaymentStatus::Expired, ..pays[id] },
                    )
                } else if authority@ != pays[id].merchant_id@ && !old(self).access.holds(
                    oracle_role(),
                    authority@,
                ) {
                    r == Err::<(), _>(FluxaError::Unauthorized)
                } else {
                    &&& r is Ok
                    &&& final(self).payments_map() == pays.insert(
                        id,
                        PaymentCharge { status: PaymentStatus::Failed, ..pays[id] },
                    )
                }
            }),
    {
        let i = match find(&self.payments, payment_id) {
            Some(i) => i,
            None => {
                return Err(FluxaError::PaymentNotFound);
            },
        };
        if self.payments[i].status != PaymentStatus::Pending {
            return Err(FluxaError::PaymentAlreadyProcessed);
        }
        if now > self.payments[i].expires_at {
            self.set_payment_status(i, PaymentStatus::Expired);
            return Ok(());
        }
        let is_merchant = bytes_eq(authority, &self.payments[i].merchant_id);
        let is_oracle = self.access.has_role(&role_oracle(), authority);
        if !is_merchant && !is_oracle {
            return Err(FluxaError::Unauthorized);
        }
        self.set_payment_status(i, PaymentStatus::Failed);
        Ok(())
    }

    /// Anyone marks a pending payment whose expiry time has passed as expired.
    pub fn expire_payment(&mut self, payment_id: &Text, now: u64) -> (r: Result<(), FluxaError>)
        requires
            old(self).wf(),
        ensures
            final(self).wf(),
            lifecycle_respected(old(self).payments_map(), final(self).payments_map()),
            r is Err ==> *final(self) == *old(self),
            final(self).access == old(self).access,
            final(self).merchant_payments == old(self).merchant_payments,
            ({
                let pays = old(self).payments_map();
                let id = payment_id@;
                if !pays.contains_key(id) {
                    r == Err::<(), _>(FluxaError::PaymentNotFound)
                } else if pays[id].status != PaymentStatus::Pending {
                    r == Err::<(), _>(FluxaError::PaymentAlreadyProcessed)
                } else if now <= pays[id].expires_at {
                    r == Err::<(), _>(FluxaError::Unauthorized)
                } else {
                    &&& r is Ok
                    &&& final(self).payments_map() == pays.insert(
                        id,
                        PaymentCharge { status: PaymentStatus::Expired, ..pays[id] },
                    )
                }
            }),
    {
        let i = match find(&self.payments, payment_id) {
            Some(i) => i,
            None => {
                return Err(FluxaError::PaymentNotFound);
            },
        };
        if self.payments[i].status != PaymentStatus::Pending {
            return Err(FluxaError::PaymentAlreadyProcessed);
        }
        if now <= self.payments[i].expires_at {
            return Err(FluxaError::Unauthorized);
        }
        self.set_payment_status(i, PaymentStatus::Expired);
        Ok(())
    }

    /// A settlement operator settles a confirmed payment: it is marked settled
    /// and its deposit address becomes `treasury_address`.
    pub fn settle_payment(&mut self, operator: &Address, payment_id: &Text, treasury_address: Address) -> (r:
        Result<(), FluxaError>)
        requires
            old(self).wf(),
        ensures
            final(self).wf(),
            lifecycle_respected(old(self).payments_map(), final(self).payments_map()),
            r is Err ==> *final(self) == *old(self),
            final(self).access == old(self).access,
            final(self).merchant_payments == old(self).merchant_payments,
            ({
                let pays = old(self).payments_map();
                let id = payment_id@;
                if !old(self).access.holds(settlement_operator_role(), operator@) {
                    r == Err::<(), _>(FluxaError::Unauthorized)
                } else if !pays.contains_key(id) {
                    r == Err::<(), _>(FluxaError::PaymentNotFound)
                } else if pays[id].status != PaymentStatus::Confirmed {
                    r == Err::<(), _>(FluxaError::PaymentAlreadyProcessed)
                } else {
                    &&& r is Ok
                    &&& final(self).payments_map() == pays.insert(
                        id,
                        PaymentCharge {
                            status: PaymentStatus::Settled,
                            deposit_address: treasury_address,
                            ..pays[id]
                        },
                    )
                }
            }),
    {
        if !self.access.has_role(&role_settlement_operator(), operator) {
            return Err(FluxaError::Unauthorized);
        }
        let i = match find(&self.payments, payment_id) {
            Some(i) => i,
            None => {
                return Err(FluxaError::PaymentNotFound);
            },
        };
        if self.payments[i].status != PaymentStatus::Confirmed {
            return Err(FluxaError::PaymentAlreadyProcessed);
        }
        let mut payment = self.payments.remove(i);
        proof {
            lemma_remove_at(old(self).payments@, i as int);
            lemma_map_from_lookups(old(self).payments@, self.payments@, payment_id@, None);
        }
        payment.status = PaymentStatus::Settled;
        payment.deposit_address = treasury_address;
        put(&mut self.payments, payment);
        proof {
            assert(old(self).payments_map().remove(payment_id@).insert(payment_id@, payment)
                =~= old(self).payments_map().insert(payment_id@, payment));
        }
        Ok(())
    }
}

} // verus!

//! Merchant pre-authorization: a customer lets a merchant pull up to a
//! limit per billing period; the merchant pulls without a fresh signature
//! each time, and the pulled total restarts with each new period.
use vstd::prelude::*;

use crate::math::{clamp_i128, sat_add, sat_sub};
use crate::store::{as_map, find, lemma_replace, put, take_at, unique_keys, Keyed};
use crate::text::{bytes_eq, copy_bytes, Address};

verus! {

/// A customer's standing authorization for one merchant.
#[derive(Debug, PartialEq, Eq)]
pub struct MerchantAuthorization {
    pub customer: Address,
    pub merchant: Address,
    pub token: Address,
    pub limit_per_period: i128,
    pub period_secs: u64,
    pub period_start: u64,
    pub pulled_this_period: i128,
    pub active: bool,
    pub created_at: u64,
}

impl Keyed for MerchantAuthorization {
    type Key = (Address, Address);

    type KV = (Seq<u8>, Seq<u8>);

    open spec fn key_of(&self) -> (Seq<u8>, Seq<u8>) {
        (self.customer@, self.merchant@)
    }

    open spec fn key_view(k: &(Address, Address)) -> (Seq<u8>, Seq<u8>) {
        (k.0@, k.1@)
    }

    fn same_key(&self, other: &Self) -> (b: bool) {
        bytes_eq(&self.customer, &other.customer) && bytes_eq(&self.merchant, &other.merchant)
    }

    fn has_key(&self, k: &(Address, Address)) -> (b: bool) {
        bytes_eq(&self.customer, &k.0) && bytes_eq(&self.merchant, &k.1)
    }
}

/// Errors of merchant pre-authorization.
#[derive(Clone, Copy, Debug, PartialEq, Eq, Structural)]
pub enum MerchantAuthError {
    AuthorizationNotFound,
    AuthorizationInactive,
    LimitExceeded,
    InvalidAmount,
    Unauthorized,
    AuthorizationAlreadyExists,
}

/// A successful pull: the merchant's running total for the period and the
/// token to transfer from the customer to the merchant.
#[derive(Debug, PartialEq, Eq)]
pub struct Pull {
    pub pulled_this_period: i128,
    pub token: Address,
}

/// The stored authorizations.
#[derive(Debug)]
pub struct MerchantPreAuth {
    pub authorizations: Vec<MerchantAuthorization>,
}

/// `a - b`, floored at zero.
pub open spec fn sat_sub_u64(a: u64, b: u64) -> u64 {
    if a < b {
        0
    } else {
        (a - b) as u64
    }
}

/// `a + b`, capped at the largest `u64`.
pub open spec fn sat_add_u64(a: u64, b: u64) -> u64 {
    if a + b > u64::MAX {
        u64::MAX
    } else {
        (a + b) as u64
    }
}

/// The authorization as seen at time `now`: when one or more whole periods
/// have passed since the period start, the start moves forward by those
/// whole periods and the pulled total restarts at zero.
pub open spec fn rolled_over(a: MerchantAuthorization, now: u64) -> MerchantAuthorization
    recommends
        a.period_secs > 0,
{
    let elapsed = sat_sub_u64(now, a.period_start);
    if elapsed >= a.period_secs {
        MerchantAuthorization {
            period_start: sat_add_u64(
                a.period_start,
                ((elapsed / a.period_secs) * a.period_secs) as u64,
            ),
            pulled_this_period: 0,
            ..a
        }
    } else {
        a
    }
}

/// The amount still available this period to an active authorization.
pub open spec fn spec_remaining(a: MerchantAuthorization, now: u64) -> i128 {
    let pulled = if sat_sub_u64(now, a.period_start) >= a.period_secs {
        0
    } else {
        a.pulled_this_period
    };
    let rem = clamp_i128(a.limit_per_period - pulled);
    if rem < 0 {
        0
    } else {
        rem
    }
}

/// What holds of every stored authorization: its period is positive, and
/// what was pulled in the current period lies between zero and the limit.
pub open spec fn auth_ok(a: MerchantAuthorization) -> bool {
    &&& a.period_secs > 0
    &&& 0 <= a.pulled_this_period <= a.limit_per_period
}

impl MerchantPreAuth {
    /// The store invariant: one authorization per (customer, merchant) pair,
    /// each satisfying `auth_ok`.
    pub open spec fn wf(&self) -> bool {
        &&& unique_keys(self.authorizations@)
        &&& forall|i: int|
            0 <= i < self.authorizations@.len() ==> auth_ok(#[trigger] self.authorizations@[i])
    }

    /// Authorizations by (customer, merchant).
    pub open spec fn auth_map(&self) -> Map<(Seq<u8>, Seq<u8>), MerchantAuthorization> {
        as_map(self.authorizations@)
    }

    /// No authorizations.
    pub fn new() -> (s: Self)
        ensures
            s.wf(),
            s.auth_map() == Map::<(Seq<u8>, Seq<u8>), MerchantAuthorization>::empty(),
    {
        let s = MerchantPreAuth { authorizations: Vec::new() };
        assert(s.auth_map() =~= Map::<(Seq<u8>, Seq<u8>), MerchantAuthorization>::empty());
        s
    }

    /// A stored authorization satisfies `auth_ok`.
    pub proof fn lemma_stored_auth_ok(&self, k: (Seq<u8>, Seq<u8>))
        requires
            self.wf(),
            self.auth_map().contains_key(k),
        ensures
            auth_ok(self.auth_map()[k]),
    {
        let i = crate::store::index_of_key(self.authorizations@, k);
        assert(self.authorizations@[i].key_of() == k);
    }

    /// The customer lets `merchant` pull up to `limit_per_period` of `token`
    /// per `period_secs` seconds, starting at `now`. Replaces an inactive
    /// authorization; an active one must be revoked first. Returns the
    /// authorization as stored.
    pub fn pre_authorize_merchant(
        &mut self,
        customer: Address,
        merchant: Address,
        token: Address,
        limit_per_period: i128,
        period_secs: u64,
        now: u64,
    ) -> (r: Result<MerchantAuthorization, MerchantAuthError>)
        requires
            old(self).wf(),
        ensures
            final(self).wf(),
            r is Err ==> *final(self) == *old(self),
            ({
                let key = (customer@, merchant@);
                let auths = old(self).auth_map();
                if limit_per_period <= 0 || period_secs == 0 {
                    r == Err::<MerchantAuthorization, _>(MerchantAuthError::InvalidAmount)
                } else if auths.contains_key(key) && auths[key].active {
                    r == Err::<MerchantAuthorization, _>(MerchantAuthError::AuthorizationAlreadyExists)
                } else {
                    &&& r matches Ok(x) && x.customer@ == customer@ && x.merchant@ == merchant@
                        && x.token@ == token@ && x.limit_per_period == limit_per_period
                        && x.period_secs == period_secs && x.period_start == now
                        && x.pulled_this_period == 0 && x.active && x.created_at == now
                    &&& final(self).auth_map() == auths.insert(
                        key,
                        MerchantAuthorization {
                            customer,
                            merchant,
                            token,
                            limit_per_period,
                            period_secs,
                            period_start: now,
                            pulled_this_period: 0,
                            active: true,
                            created_at: now,
                        },
                    )
                }
            }),
    {
        if limit_per_period <= 0 {
            return Err(MerchantAuthError::InvalidAmount);
        }
        if period_secs == 0 {
            return Err(MerchantAuthError::InvalidAmount);
        }
        let key = (copy_bytes(&customer), copy_bytes(&merchant));
        match find(&self.authorizations, &key) {
            Some(i) => {
                if self.authorizations[i].active {
                    return Err(MerchantAuthError::AuthorizationAlreadyExists);
                }
            },
            None => {},
        }
        let granted = MerchantAuthorization {
            customer: copy_bytes(&customer),
            merchant: copy_bytes(&merchant),
            token: copy_bytes(&token),
            limit_per_period,
            period_secs,
            period_start: now,
            pulled_this_period: 0,
            active: true,
            created_at: now,
        };
        let auth = MerchantAuthorization {
            customer,
            merchant,
            token,
            limit_per_period,
            period_secs,
            period_start: now,
            pulled_this_period: 0,
            active: true,
            created_at: now,
        };
        let ghost before = self.authorizations@;
        put(&mut self.authorizations, auth);
        proof {
            self.lemma_all_auths_ok(before, auth);
        }
        Ok(granted)
    }

    /// Storing a record that satisfies `auth_ok` in a store whose records all
    /// satisfy it keeps them all satisfying it.
    proof fn lemma_all_auths_ok(&self, before: Seq<MerchantAuthorization>, x: MerchantAuthorization)
        requires
            forall|i: int| 0 <= i < before.len() ==> auth_ok(#[trigger] before[i]),
            auth_ok(x),
            as_map(self.authorizations@) == as_map(before).insert(x.key_of(), x),
            unique_keys(self.authorizations@),
            unique_keys(before),
        ensures
            forall|i: int|
                0 <= i < self.authorizations@.len() ==> auth_ok(#[trigger] self.authorizations@[i]),
    {
        assert forall|i: int| 0 <= i < self.authorizations@.len() implies auth_ok(#[trigger] self.authorizations@[i]) by {
            let k = self.authorizations@[i].key_of();
            crate::store::lemma_lookup_at(self.authorizations@, i);
            assert(crate::store::contains_key(self.authorizations@, k));
            assert(as_map(self.authorizations@).contains_key(k));
            assert(as_map(self.authorizations@)[k] == self.authorizations@[i]);
            if k != x.key_of() {
                assert(as_map(before).insert(x.key_of(), x).contains_key(k));
                assert(as_map(before).contains_key(k));
                assert(as_map(before)[k] == self.authorizations@[i]);
                let j = crate::store::index_of_key(before, k);
                crate::store::lemma_lookup_at(before, j);
            }
        }
    }

    /// The customer revokes the active authorization of `merchant`.
    pub fn revoke_authorization(&mut self, customer: &Address, merchant: &Address) -> (r: Result<
        (),
        MerchantAuthError,
    >)
        requires
            old(self).wf(),
        ensures
            final(self).wf(),
            r is Err ==> *final(self) == *old(self),
            ({
                let key = (customer@, merchant@);
                let auths = old(self).auth_map();
                if !auths.contains_key(key) {
                    r == Err::<(), _>(MerchantAuthError::AuthorizationNotFound)
                } else if !auths[key].active {
                    r == Err::<(), _>(MerchantAuthError::AuthorizationInactive)
                } else {
                    &&& r is Ok
                    &&& final(self).auth_map() == auths.insert(
                        key,
                        MerchantAuthorization { active: false, ..auths[key] },
                    )
                }
            }),
    {
        let key = (copy_bytes(customer), copy_bytes(merchant));
        let i = match find(&self.authorizations, &key) {
            Some(i) => i,
            None => {
                return Err(MerchantAuthError::AuthorizationNotFound);
            },
        };
        if !self.authorizations[i].active {
            return Err(MerchantAuthError::AuthorizationInactive);
        }
        let ghost before = self.authorizations@;
        proof {
            self.lemma_stored_auth_ok((customer@, merchant@));
        }
        let mut auth = take_at(&mut self.authorizations, i);
        auth.active = false;
        let ghost mid = self.authorizations@;
        put(&mut self.authorizations, auth);
        proof {
            lemma_replace(old(self).auth_map(), (customer@, merchant@), auth);
            assert forall|j: int| 0 <= j < mid.len() implies auth_ok(#[trigger] mid[j]) by {
                if j < i {
                    assert(mid[j] == before[j]);
                } else {
                    assert(mid[j] == before[j + 1]);
                }
            }
            self.lemma_all_auths_ok(mid, auth);
        }
        Ok(())
    }
}

impl MerchantPreAuth {
    /// The authorization of `merchant` by `customer`.
    pub fn get_authorization(&self, customer: &Address, merchant: &Address) -> (r: Result<
        &MerchantAuthorization,
        MerchantAuthError,
    >)
        requires
            self.wf(),
        ensures
            r is Ok <==> self.auth_map().contains_key((customer@, merchant@)),
            r matches Ok(a) ==> *a == self.auth_map()[(customer@, merchant@)],
            r is Err ==> r == Err::<&MerchantAuthorization, _>(
                MerchantAuthError::AuthorizationNotFound,
            ),
    {
        let key = (copy_bytes(customer), copy_bytes(merchant));
        match find(&self.authorizations, &key) {
            Some(i) => Ok(&self.authorizations[i]),
            None => Err(MerchantAuthError::AuthorizationNotFound),
        }
    }

    /// The amount `merchant` may still pull from `customer` at time `now`
    /// without changing anything: the full limit once the period has rolled
    /// over, zero for an inactive authorization.
    pub fn remaining_limit(&self, customer: &Address, merchant: &Address, now: u64) -> (r: Result<
        i128,
        MerchantAuthError,
    >)
        requires
            self.wf(),
        ensures
            ({
                let key = (customer@, merchant@);
                let auths = self.auth_map();
                if !auths.contains_key(key) {
                    r == Err::<i128, _>(MerchantAuthError::AuthorizationNotFound)
                } else if !auths[key].active {
                    r == Ok::<i128, MerchantAuthError>(0)
                } else {
                    r == Ok::<i128, MerchantAuthError>(spec_remaining(auths[key], now))
                }
            }),
    {
        let key = (copy_bytes(customer), copy_bytes(merchant));
        let i = match find(&self.authorizations, &key) {
            Some(i) => i,
            None => {
                return Err(MerchantAuthError::AuthorizationNotFound);
            },
        };
        let auth = &self.authorizations[i];
        if !auth.active {
            return Ok(0);
        }
        let elapsed = now.saturating_sub(auth.period_start);
        let pulled: i128 = if elapsed >= auth.period_secs {
            0
        } else {
            auth.pulled_this_period
        };
        let rem = sat_sub(auth.limit_per_period, pulled);
        if rem < 0 {
            Ok(0)
        } else {
            Ok(rem)
        }
    }

    /// The merchant pulls `amount` from the customer. The period rolls over
    /// first (see `rolled_over`); the pull must fit in what is left of the
    /// limit, and is added to the pulled total. Returns the new total and the
    /// token to transfer.
    pub fn pull_payment(&mut self, merchant: &Address, customer: &Address, amount: i128, now: u64) -> (r:
        Result<Pull, MerchantAuthError>)
        requires
            old(self).wf(),
        ensures
            final(self).wf(),
            r is Err ==> *final(self) == *old(self),
            ({
                let key = (customer@, merchant@);
                let auths = old(self).auth_map();
                if amount <= 0 {
                    r == Err::<Pull, _>(MerchantAuthError::InvalidAmount)
                } else if !auths.contains_key(key) {
                    r == Err::<Pull, _>(MerchantAuthError::AuthorizationNotFound)
                } else if !auths[key].active {
                    r == Err::<Pull, _>(MerchantAuthError::AuthorizationInactive)
                } else {
                    let a = rolled_over(auths[key], now);
                    if amount > clamp_i128(a.limit_per_period - a.pulled_this_period) {
                        r == Err::<Pull, _>(MerchantAuthError::LimitExceeded)
                    } else {
                        let updated = MerchantAuthorization {
                            pulled_this_period: clamp_i128(a.pulled_this_period + amount),
                            ..a
                        };
                        &&& r matches Ok(p) && p.pulled_this_period == updated.pulled_this_period
                            && p.token@ == a.token@
                        &&& final(self).auth_map() == auths.insert(key, updated)
                    }
                }
            }),
    {
        if amount <= 0 {
            return Err(MerchantAuthError::InvalidAmount);
        }
        let key = (copy_bytes(customer), copy_bytes(merchant));
        let i = match find(&self.authorizations, &key) {
            Some(i) => i,
            None => {
                return Err(MerchantAuthError::AuthorizationNotFound);
            },
        };
        if !self.authorizations[i].active {
            return Err(MerchantAuthError::AuthorizationInactive);
        }
        if !bytes_eq(&self.authorizations[i].merchant, merchant) {
            return Err(MerchantAuthError::Unauthorized);
        }
        proof {
            self.lemma_stored_auth_ok((customer@, merchant@));
        }
        let auth = &self.authorizations[i];
        let mut period_start = auth.period_start;
        let mut pulled = auth.pulled_this_period;
        let elapsed = now.saturating_sub(auth.period_start);
        if elapsed >= auth.period_secs {
            let p = auth.period_secs;
            let periods = elapsed / p;
            assert(periods * p <= elapsed) by (nonlinear_arith)
                requires
                    p > 0,
                    periods == elapsed / p,
            ;
            period_start = auth.period_start.saturating_add(periods * p);
            pulled = 0;
        }
        let remaining = sat_sub(auth.limit_per_period, pulled);
        if amount > remaining {
            return Err(MerchantAuthError::LimitExceeded);
        }
        let new_pulled = sat_add(pulled, amount);
        let token = copy_bytes(&auth.token);
        let ghost before = self.authorizations@;
        let mut updated = take_at(&mut self.authorizations, i);
        updated.period_start = period_start;
        updated.pulled_this_period = new_pulled;
        let ghost mid = self.authorizations@;
        put(&mut self.authorizations, updated);
        proof {
            lemma_replace(old(self).auth_map(), (customer@, merchant@), updated);
            assert forall|j: int| 0 <= j < mid.len() implies auth_ok(#[trigger] mid[j]) by {
                if j < i {
                    assert(mid[j] == before[j]);
                } else {
                    assert(mid[j] == before[j + 1]);
                }
            }
            self.lemma_all_auths_ok(mid, updated);
        }
        Ok(Pull { pulled_this_period: new_pulled, token })
    }
}

/// A positive pull from an active authorization passes the limit check of
/// `pull_payment` exactly when it is at most what `remaining_limit` reports
/// at the same moment.
pub proof fn lemma_pull_fits_remaining(a: MerchantAuthorization, now: u64, amount: i128)
    requires
        auth_ok(a),
        amount > 0,
    ensures
        ({
            let r = rolled_over(a, now);
            amount <= clamp_i128(r.limit_per_period - r.pulled_this_period)
        }) <==> amount <= spec_remaining(a, now),
{
}

/// A pull that passes the limit check keeps the pulled total of the period
/// within the limit.
pub proof fn lemma_pull_stays_within_limit(a: MerchantAuthorization, now: u64, amount: i128)
    requires
        auth_ok(a),
        amount > 0,
        amount <= spec_remaining(a, now),
    ensures
        ({
            let r = rolled_over(a, now);
            0 < clamp_i128(r.pulled_this_period + amount) <= a.limit_per_period
        }),
{
}

} // verus!

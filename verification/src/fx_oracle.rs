//! The exchange-rate oracle: oracles publish rates per currency pair; a
//! rate is served only while it is fresh, by time and by ledger sequence.
use vstd::prelude::*;

use crate::access_control::{admin_role, oracle_role, role_admin, role_oracle, with_grant, AccessControl};
use crate::math::{div_trunc, pow10, lemma_pow10_positive, trunc_div};
use crate::store::{as_map, find, put, unique_keys, Keyed};
use crate::text::{bytes_eq, Address, Symbol};

verus! {

/// Oldest a rate may be, in seconds, whatever threshold the admin sets.
pub const MAX_RATE_AGE_SECS: u64 = 86_400;

/// Most ledgers that may have closed since a rate was published.
pub const MAX_LEDGER_GAP: u32 = 17_280;

/// A published exchange rate: `rate` units per unit, scaled by
/// ten to the power `decimals`.
#[derive(Debug, PartialEq, Eq)]
pub struct RateData {
    pub pair: Symbol,
    pub rate: i128,
    pub decimals: u32,
    pub updated_at: u64,
    pub updated_sequence: u32,
}

impl Keyed for RateData {
    type Key = Symbol;

    type KV = Seq<u8>;

    open spec fn key_of(&self) -> Seq<u8> {
        self.pair@
    }

    open spec fn key_view(k: &Symbol) -> Seq<u8> {
        k@
    }

    fn same_key(&self, other: &Self) -> (b: bool) {
        bytes_eq(&self.pair, &other.pair)
    }

    fn has_key(&self, k: &Symbol) -> (b: bool) {
        bytes_eq(&self.pair, k)
    }
}

/// Errors of the oracle.
#[derive(Clone, Copy, Debug, PartialEq, Eq, Structural)]
pub enum FXOracleError {
    RateNotFound,
    RateStale,
    Unauthorized,
    InvalidRate,
}

/// The oracle contract state.
#[derive(Debug)]
pub struct FXOracle {
    pub access: AccessControl,
    pub rates: Vec<RateData>,
    pub staleness_threshold: Option<u64>,
}

/// `a + b`, capped at the largest `u64`.
pub open spec fn sat_add_u64(a: u64, b: u64) -> u64 {
    if a + b > u64::MAX {
        u64::MAX
    } else {
        (a + b) as u64
    }
}

/// `a - b`, floored at zero.
pub open spec fn sat_sub_u32(a: u32, b: u32) -> u32 {
    if a < b {
        0
    } else {
        (a - b) as u32
    }
}

/// Every published rate is positive.
pub open spec fn rates_positive(rates: Map<Seq<u8>, RateData>) -> bool {
    forall|k: Seq<u8>| #[trigger] rates.contains_key(k) ==> rates[k].rate > 0
}

impl FXOracle {
    /// The store invariant: one rate per pair, each positive.
    pub open spec fn wf(&self) -> bool {
        &&& self.access.wf()
        &&& unique_keys(self.rates@)
        &&& rates_positive(self.rates_map())
    }

    /// Published rates by pair.
    pub open spec fn rates_map(&self) -> Map<Seq<u8>, RateData> {
        as_map(self.rates@)
    }

    /// The configured staleness threshold (the maximum age until one is set).
    pub open spec fn threshold(&self) -> u64 {
        match self.staleness_threshold {
            Some(t) => t,
            None => MAX_RATE_AGE_SECS,
        }
    }

    /// The age limit in force: the configured threshold, capped at the
    /// maximum age.
    pub open spec fn effective_threshold(&self) -> u64 {
        if self.threshold() < MAX_RATE_AGE_SECS {
            self.threshold()
        } else {
            MAX_RATE_AGE_SECS
        }
    }

    /// The rate is too old at time `now`.
    pub open spec fn too_old(&self, r: RateData, now: u64) -> bool {
        now > sat_add_u64(r.updated_at, self.effective_threshold())
    }

    /// Too many ledgers have closed since the rate was published.
    pub open spec fn gap_too_large(&self, r: RateData, sequence: u32) -> bool {
        sat_sub_u32(sequence, r.updated_sequence) > MAX_LEDGER_GAP
    }

    /// What `get_rate` answers for `pair` at time `now` and ledger `sequence`.
    pub open spec fn rate_answer(&self, pair: Seq<u8>, now: u64, sequence: u32) -> Result<
        RateData,
        FXOracleError,
    > {
        if !self.rates_map().contains_key(pair) {
            Err(FXOracleError::RateNotFound)
        } else if self.too_old(self.rates_map()[pair], now) || self.gap_too_large(
            self.rates_map()[pair],
            sequence,
        ) {
            Err(FXOracleError::RateStale)
        } else {
            Ok(self.rates_map()[pair])
        }
    }

    /// The contract version.
    pub fn version() -> (v: u32)
        ensures
            v == 1,
    {
        1
    }

    /// An oracle with nothing stored.
    pub fn new() -> (o: Self)
        ensures
            o.wf(),
            o.rates_map() == Map::<Seq<u8>, RateData>::empty(),
            o.staleness_threshold is None,
            o.access.is_fresh(),
    {
        let o = FXOracle { access: AccessControl::new(), rates: Vec::new(), staleness_threshold: None };
        assert(o.rates_map() =~= Map::<Seq<u8>, RateData>::empty());
        o
    }

    /// Sets up access control with `admin` and records the staleness threshold.
    pub fn oracle_initialize(&mut self, admin: Address, staleness_threshold: u64)
        requires
            old(self).wf(),
        ensures
            final(self).wf(),
            final(self).access.roles.admin_view() == Some(admin@),
            final(self).access.roles.pairs() == with_grant(
                old(self).access.roles.pairs(),
                (admin_role(), admin@),
            ),
            final(self).staleness_threshold == Some(staleness_threshold),
            final(self).rates == old(self).rates,
    {
        self.access.initialize(admin);
        self.staleness_threshold = Some(staleness_threshold);
    }

    /// The admin grants `role` to `account`; any refusal is `Unauthorized`.
    pub fn oracle_grant_role(&mut self, admin: &Address, role: Symbol, account: Address) -> (r:
        Result<(), FXOracleError>)
        requires
            old(self).wf(),
        ensures
            final(self).wf(),
            r is Err ==> *final(self) == *old(self),
            r is Ok <==> old(self).access.is_admin(admin@) && !old(self).access.holds(
                role@,
                account@,
            ),
            r is Err ==> r == Err::<(), _>(FXOracleError::Unauthorized),
            r is Ok ==> final(self).access.roles.pairs() == old(self).access.roles.pairs().push(
                (role@, account@),
            ),
            final(self).access.roles.admin == old(self).access.roles.admin,
            final(self).access.revocations == old(self).access.revocations,
            final(self).access.transfer == old(self).access.transfer,
            final(self).access.multisig == old(self).access.multisig,
            final(self).rates == old(self).rates,
            final(self).staleness_threshold == old(self).staleness_threshold,
    {
        match self.access.grant_role(admin, role, account) {
            Ok(()) => Ok(()),
            Err(_) => Err(FXOracleError::Unauthorized),
        }
    }

    /// Whether `account` holds `role`.
    pub fn oracle_has_role(&self, role: &Symbol, account: &Address) -> (b: bool)
        ensures
            b == self.access.holds(role@, account@),
    {
        self.access.has_role(role, account)
    }

    /// The administrator, if recorded.
    pub fn get_fx_admin(&self) -> (admin: Option<Address>)
        ensures
            crate::text::opt_view(admin) == self.access.roles.admin_view(),
    {
        self.access.get_admin()
    }

    /// An oracle publishes a positive `rate` for `pair`, stamped with the
    /// time and the ledger sequence; it replaces the previous rate of the
    /// pair.
    pub fn set_rate(
        &mut self,
        operator: &Address,
        pair: Symbol,
        rate: i128,
        decimals: u32,
        now: u64,
        sequence: u32,
    ) -> (r: Result<(), FXOracleError>)
        requires
            old(self).wf(),
        ensures
            final(self).wf(),
            r is Err ==> *final(self) == *old(self),
            !old(self).access.holds(oracle_role(), operator@) ==> r == Err::<(), _>(
                FXOracleError::Unauthorized,
            ),
            old(self).access.holds(oracle_role(), operator@) && rate <= 0 ==> r == Err::<(), _>(
                FXOracleError::InvalidRate,
            ),
            old(self).access.holds(oracle_role(), operator@) && rate > 0 ==> {
                &&& r is Ok
                &&& final(self).rates_map() == old(self).rates_map().insert(
                    pair@,
                    RateData {
                        pair: pair,
                        rate,
                        decimals,
                        updated_at: now,
                        updated_sequence: sequence,
                    },
                )
                &&& final(self).access == old(self).access
                &&& final(self).staleness_threshold == old(self).staleness_threshold
            },
    {
        if !self.access.has_role(&role_oracle(), operator) {
            return Err(FXOracleError::Unauthorized);
        }
        if rate <= 0 {
            return Err(FXOracleError::InvalidRate);
        }
        let data = RateData { pair, rate, decimals, updated_at: now, updated_sequence: sequence };
        put(&mut self.rates, data);
        Ok(())
    }

    /// The configured staleness threshold (the maximum age until one is set).
    pub fn get_staleness_threshold(&self) -> (t: u64)
        ensures
            t == self.threshold(),
    {
        match self.staleness_threshold {
            Some(t) => t,
            None => MAX_RATE_AGE_SECS,
        }
    }

    /// Checks that `rate_data` is still fresh at time `now` and ledger
    /// `sequence`: not older than the age limit in force, and published at
    /// most `MAX_LEDGER_GAP` ledgers ago.
    pub fn check_rate_freshness(&self, rate_data: &RateData, now: u64, sequence: u32) -> (r: Result<
        (),
        FXOracleError,
    >)
        ensures
            r is Ok <==> !self.too_old(*rate_data, now) && !self.gap_too_large(*rate_data, sequence),
            r is Err ==> r == Err::<(), _>(FXOracleError::RateStale),
    {
        let configured = self.get_staleness_threshold();
        let effective = if configured < MAX_RATE_AGE_SECS {
            configured
        } else {
            MAX_RATE_AGE_SECS
        };
        if now > rate_data.updated_at.saturating_add(effective) {
            return Err(FXOracleError::RateStale);
        }
        let gap = sequence.saturating_sub(rate_data.updated_sequence);
        if gap > MAX_LEDGER_GAP {
            return Err(FXOracleError::RateStale);
        }
        Ok(())
    }

    /// The rate of `pair`, if one is published and still fresh.
    pub fn get_rate(&self, pair: &Symbol, now: u64, sequence: u32) -> (r: Result<&RateData, FXOracleError>)
        requires
            self.wf(),
        ensures
            match self.rate_answer(pair@, now, sequence) {
                Ok(d) => r matches Ok(x) && *x == d,
                Err(e) => r == Err::<&RateData, _>(e),
            },
    {
        let i = match find(&self.rates, pair) {
            Some(i) => i,
            None => {
                return Err(FXOracleError::RateNotFound);
            },
        };
        let data = &self.rates[i];
        match self.check_rate_freshness(data, now, sequence) {
            Ok(()) => Ok(data),
            Err(e) => Err(e),
        }
    }

    /// Whether reading `pair` now raises the stale-rate alert: the rate exists
    /// and is young enough, but too many ledgers have closed since it was
    /// published.
    pub fn stale_alert(&self, pair: &Symbol, now: u64, sequence: u32) -> (alert: bool)
        requires
            self.wf(),
        ensures
            alert == (self.rates_map().contains_key(pair@) && !self.too_old(
                self.rates_map()[pair@],
                now,
            ) && self.gap_too_large(self.rates_map()[pair@], sequence)),
    {
        match find(&self.rates, pair) {
            Some(i) => {
                let data = &self.rates[i];
                let configured = self.get_staleness_threshold();
                let effective = if configured < MAX_RATE_AGE_SECS {
                    configured
                } else {
                    MAX_RATE_AGE_SECS
                };
                !(now > data.updated_at.saturating_add(effective))
                    && sequence.saturating_sub(data.updated_sequence) > MAX_LEDGER_GAP
            },
            None => false,
        }
    }

    /// Converts `usdc_amount` with the fresh rate of `target_currency`:
    /// `usdc_amount * rate / 10^decimals`, rounded toward zero.
    pub fn get_settlement_amount(&self, usdc_amount: i128, target_currency: &Symbol, now: u64, sequence: u32) -> (r:
        Result<i128, FXOracleError>)
        requires
            self.wf(),
            self.rate_answer(target_currency@, now, sequence) matches Ok(d) ==> d.decimals <= 38
                && i128::MIN <= usdc_amount * d.rate <= i128::MAX,
        ensures
            match self.rate_answer(target_currency@, now, sequence) {
                Ok(d) => r == Ok::<i128, FXOracleError>(
                    trunc_div(usdc_amount * d.rate, pow10(d.decimals as nat)) as i128,
                ),
                Err(e) => r == Err::<i128, _>(e),
            },
    {
        let data = match self.get_rate(target_currency, now, sequence) {
            Ok(d) => d,
            Err(e) => {
                return Err(e);
            },
        };
        let mut divisor: i128 = 1;
        let mut k: u32 = 0;
        while k < data.decimals
            invariant
                k <= data.decimals <= 38,
                divisor == pow10(k as nat),
            decreases data.decimals - k,
        {
            proof {
                lemma_pow10_below((k + 1) as nat);
            }
            divisor = divisor * 10;
            k = k + 1;
        }
        proof {
            lemma_pow10_positive(data.decimals as nat);
        }
        Ok(div_trunc(usdc_amount * data.rate, divisor))
    }

    /// The admin may upgrade the contract code.
    pub fn upgrade(&self, admin: &Address) -> (r: Result<(), FXOracleError>)
        ensures
            r is Ok <==> self.access.is_admin(admin@),
            r is Err ==> r == Err::<(), _>(FXOracleError::Unauthorized),
    {
        if !self.access.has_role(&role_admin(), admin) {
            return Err(FXOracleError::Unauthorized);
        }
        Ok(())
    }

    /// The admin sets the staleness threshold.
    pub fn set_staleness_threshold(&mut self, admin: &Address, threshold: u64) -> (r: Result<
        (),
        FXOracleError,
    >)
        requires
            old(self).wf(),
        ensures
            final(self).wf(),
            r is Err ==> *final(self) == *old(self),
            r is Ok <==> old(self).access.is_admin(admin@),
            r is Err ==> r == Err::<(), _>(FXOracleError::Unauthorized),
            r is Ok ==> final(self).staleness_threshold == Some(threshold),
            final(self).access == old(self).access,
            final(self).rates == old(self).rates,
    {
        if !self.access.has_role(&role_admin(), admin) {
            return Err(FXOracleError::Unauthorized);
        }
        self.staleness_threshold = Some(threshold);
        Ok(())
    }
}

/// A rate that the oracle serves is the one published for the pair, is
/// positive, is never older than a day whatever threshold the admin configured, is within
/// the configured threshold, and was published at most `MAX_LEDGER_GAP`
/// ledgers ago.
pub proof fn lemma_served_rate_is_fresh(o: FXOracle, pair: Seq<u8>, now: u64, sequence: u32)
    requires
        o.wf(),
        o.rate_answer(pair, now, sequence) is Ok,
    ensures
        ({
            let d = o.rate_answer(pair, now, sequence)->Ok_0;
            &&& o.rates_map().contains_key(pair) && o.rates_map()[pair] == d
            &&& d.rate > 0
            &&& now <= d.updated_at + MAX_RATE_AGE_SECS
            &&& now <= d.updated_at + o.threshold()
            &&& sequence <= d.updated_sequence + MAX_LEDGER_GAP
        }),
{
}

/// Powers of ten up to the 38th fit in an `i128`.
pub proof fn lemma_pow10_below(n: nat)
    requires
        n <= 38,
    ensures
        1 <= pow10(n) <= pow10(38),
        pow10(38) == 100_000_000_000_000_000_000_000_000_000_000_000_000,
    decreases 38 - n,
{
    reveal_with_fuel(pow10, 39);
    lemma_pow10_positive(n);
    if n < 38 {
        lemma_pow10_below(n + 1);
        assert(pow10(n + 1) == 10 * pow10(n));
    }
}

} // verus!

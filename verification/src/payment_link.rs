//! Payment links: reusable invoices that merchants publish and payers use,
//! with optional fixed amount, expiry, use limit, metadata, direct transfer
//! to the merchant, and amounts set in a fiat currency and converted at the
//! oracle's rate.
use vstd::prelude::*;

use crate::math::{clamp_i128, div_trunc, lemma_pow10_positive, pow10, sat_mul, trunc_div};
use crate::payments::{PaymentCharge, PaymentStatus};
use crate::refunds::TokenTransfer;
use crate::store::{
    append_id, as_map, find, get_ids, ids_under, lemma_replace, put, take_at, unique_keys, IdIndex,
    Keyed,
};
use crate::text::{
    bytes_eq, copy_bytes, copy_opt_bytes, format_id, format_id_spec, opt_view, seq_view, Address,
    Symbol, Text,
};

verus! {

/// Most metadata entries a link may carry.
pub const MAX_METADATA_ENTRIES: usize = 20;

/// Longest metadata value, in bytes.
pub const MAX_METADATA_VALUE_LEN: usize = 256;

/// How long a payment created from a link stays payable, in seconds.
pub const DEFAULT_PAYMENT_DURATION_SECS: u64 = 3600;

/// A link amount set in a fiat currency, converted with the rate that
/// `oracle` publishes for `currency`.
#[derive(Debug, PartialEq, Eq)]
pub struct FiatConfig {
    pub amount: i128,
    pub currency: Symbol,
    pub oracle: Address,
}

/// An optional fiat configuration.
#[derive(Debug, PartialEq, Eq)]
pub enum MaybeFiatConfig {
    NoFiat,
    Fiat(FiatConfig),
}

impl MaybeFiatConfig {
    /// The configuration, if any, by reference.
    pub fn as_option(&self) -> (r: Option<&FiatConfig>)
        ensures
            match self {
                MaybeFiatConfig::Fiat(c) => r == Some(c),
                MaybeFiatConfig::NoFiat => r is None,
            },
    {
        match self {
            MaybeFiatConfig::Fiat(c) => Some(c),
            MaybeFiatConfig::NoFiat => None,
        }
    }

    /// The configuration, if any.
    pub fn into_option(self) -> (r: Option<FiatConfig>)
        ensures
            match self {
                MaybeFiatConfig::Fiat(c) => r == Some(c),
                MaybeFiatConfig::NoFiat => r is None,
            },
    {
        match self {
            MaybeFiatConfig::Fiat(c) => Some(c),
            MaybeFiatConfig::NoFiat => None,
        }
    }
}

/// A payment link.
#[derive(Debug, PartialEq, Eq)]
pub struct PaymentLink {
    pub link_id: Text,
    pub merchant_id: Address,
    pub amount: Option<i128>,
    pub currency: Symbol,
    pub description: Text,
    pub expires_at: Option<u64>,
    pub max_uses: Option<u32>,
    pub use_count: u32,
    pub active: bool,
    pub direct_transfer: bool,
    pub metadata: Option<Vec<(Text, Text)>>,
    pub fiat: MaybeFiatConfig,
}

impl Keyed for PaymentLink {
    type Key = Text;

    type KV = Seq<u8>;

    open spec fn key_of(&self) -> Seq<u8> {
        self.link_id@
    }

    open spec fn key_view(k: &Text) -> Seq<u8> {
        k@
    }

    fn same_key(&self, other: &Self) -> (b: bool) {
        bytes_eq(&self.link_id, &other.link_id)
    }

    fn has_key(&self, k: &Text) -> (b: bool) {
        bytes_eq(&self.link_id, k)
    }
}

/// Errors of the payment link manager.
#[derive(Clone, Copy, Debug, PartialEq, Eq, Structural)]
pub enum Error {
    Unauthorized,
    PaymentNotFound,
    PaymentExpired,
    PaymentAlreadyProcessed,
    InvalidAmount,
    StaleOracleRate,
    MetadataTooLarge,
    MetadataValueTooLong,
}

/// A rate read from a fiat link's oracle.
#[derive(Clone, Copy, Debug, PartialEq, Eq, Structural)]
pub struct OracleQuote {
    pub rate: i128,
    pub decimals: u32,
}

/// A successful use of a link: the id of the payment record created, the
/// amount paid, and the transfer to the merchant for a direct-transfer link.
#[derive(Debug, PartialEq, Eq)]
pub struct LinkUse {
    pub payment_id: Text,
    pub amount: i128,
    pub direct_transfer: Option<TokenTransfer>,
}

/// The status line of one link in a batch check: id, active, use count and
/// use limit.
pub type LinkStatus = (Text, bool, u32, Option<u32>);

/// The payment link manager contract state.
#[derive(Debug)]
pub struct PaymentLinkManager {
    pub admin: Option<Address>,
    pub links: Vec<PaymentLink>,
    pub link_payment_ids: Vec<IdIndex>,
    pub link_payments: Vec<PaymentCharge>,
}

/// `lnk_pay_`
pub open spec fn link_payment_prefix() -> Seq<u8> {
    seq![108u8, 110u8, 107u8, 95u8, 112u8, 97u8, 121u8, 95u8]
}

/// A metadata entry whose value is longer than allowed.
pub open spec fn value_too_long(e: (Text, Text)) -> bool {
    e.1@.len() > MAX_METADATA_VALUE_LEN
}

/// No two metadata entries share a key (the entries of a map).
pub open spec fn keys_distinct(m: Seq<(Text, Text)>) -> bool {
    forall|i: int, j: int| 0 <= i < j < m.len() ==> #[trigger] m[i].0@ != #[trigger] m[j].0@
}

/// Whether a list of metadata entries may be attached to a link, and if not,
/// why: too many entries, or a value too long.
pub open spec fn metadata_ok(m: Seq<(Text, Text)>) -> Result<(), Error> {
    if m.len() > MAX_METADATA_ENTRIES {
        Err(Error::MetadataTooLarge)
    } else if exists|i: int| 0 <= i < m.len() && #[trigger] value_too_long(m[i]) {
        Err(Error::MetadataValueTooLong)
    } else {
        Ok(())
    }
}

/// `10^decimals`, capped at the largest `i128`.
pub open spec fn capped_pow10(decimals: u32) -> i128 {
    clamp_i128(pow10(decimals as nat))
}

/// The USDC amount a fiat amount comes to at `q`:
/// `fiat * 10^decimals / rate`, the product saturating and the quotient
/// rounded toward zero.
pub open spec fn fiat_to_usdc(fiat_amount: i128, q: OracleQuote) -> i128 {
    trunc_div(clamp_i128(fiat_amount * capped_pow10(q.decimals)) as int, q.rate as int) as i128
}

/// The division in `fiat_to_usdc` is defined.
pub open spec fn conversion_defined(fiat_amount: i128, q: OracleQuote) -> bool {
    q.rate != 0 && !(clamp_i128(fiat_amount * capped_pow10(q.decimals)) == i128::MIN && q.rate
        == -1)
}

/// The amount a use of `link` with `amount` offered resolves to, or why it
/// is refused (`quote` is what the link's oracle answered, if anything).
pub open spec fn resolve_amount(link: PaymentLink, amount: i128, quote: Option<OracleQuote>) -> Result<
    i128,
    Error,
> {
    match link.fiat {
        MaybeFiatConfig::Fiat(cfg) => match quote {
            None => Err(Error::StaleOracleRate),
            Some(q) => {
                let usdc = fiat_to_usdc(cfg.amount, q);
                if link.amount matches Some(fixed) && usdc != fixed {
                    Err(Error::InvalidAmount)
                } else if amount != usdc {
                    Err(Error::InvalidAmount)
                } else {
                    Ok(usdc)
                }
            },
        },
        MaybeFiatConfig::NoFiat => match link.amount {
            Some(fixed) => if amount != fixed {
                Err(Error::InvalidAmount)
            } else {
                Ok(amount)
            },
            None => if amount <= 0 {
                Err(Error::InvalidAmount)
            } else {
                Ok(amount)
            },
        },
    }
}

/// Why a use of `link` at `now` is refused before any amount is looked at.
pub open spec fn link_gate(link: PaymentLink, now: u64) -> Option<Error> {
    if !link.active {
        Some(Error::Unauthorized)
    } else if link.expires_at matches Some(e) && now > e {
        Some(Error::PaymentExpired)
    } else if link.max_uses matches Some(m) && link.use_count >= m {
        Some(Error::PaymentAlreadyProcessed)
    } else {
        None
    }
}

/// The views of a list of metadata entries.
pub open spec fn metadata_view(m: Option<Vec<(Text, Text)>>) -> Option<Seq<(Seq<u8>, Seq<u8>)>> {
    match m {
        Some(v) => Some(v@.map_values(|e: (Text, Text)| (e.0@, e.1@))),
        None => None,
    }
}

fn copy_metadata(m: &Option<Vec<(Text, Text)>>) -> (c: Option<Vec<(Text, Text)>>)
    ensures
        metadata_view(c) == metadata_view(*m),
{
    match m {
        None => None,
        Some(v) => {
            let mut out: Vec<(Text, Text)> = Vec::new();
            let mut i: usize = 0;
            while i < v.len()
                invariant
                    i <= v@.len(),
                    out@.len() == i,
                    forall|j: int|
                        0 <= j < i ==> #[trigger] out@[j].0@ == v@[j].0@ && out@[j].1@ == v@[j].1@,
                decreases v.len() - i,
            {
                out.push((copy_bytes(&v[i].0), copy_bytes(&v[i].1)));
                i = i + 1;
            }
            assert(out@.map_values(|e: (Text, Text)| (e.0@, e.1@)) =~= v@.map_values(
                |e: (Text, Text)| (e.0@, e.1@),
            ));
            Some(out)
        },
    }
}

fn check_metadata(m: &Vec<(Text, Text)>) -> (r: Result<(), Error>)
    ensures
        r == metadata_ok(m@),
{
    if m.len() > MAX_METADATA_ENTRIES {
        return Err(Error::MetadataTooLarge);
    }
    let mut i: usize = 0;
    while i < m.len()
        invariant
            i <= m@.len(),
            m@.len() <= MAX_METADATA_ENTRIES,
            forall|j: int| 0 <= j < i ==> !#[trigger] value_too_long(m@[j]),
        decreases m.len() - i,
    {
        if m[i].1.len() > MAX_METADATA_VALUE_LEN {
            assert(value_too_long(m@[i as int]));
            return Err(Error::MetadataValueTooLong);
        }
        i = i + 1;
    }
    Ok(())
}

/// `10^decimals`, capped at the largest `i128`.
pub fn pow10_capped(decimals: u32) -> (d: i128)
    ensures
        d == capped_pow10(decimals),
        d >= 1,
{
    let mut divisor: i128 = 1;
    let mut k: u32 = 0;
    while k < decimals
        invariant
            k <= decimals,
            divisor == clamp_i128(pow10(k as nat)),
        decreases decimals - k,
    {
        proof {
            lemma_pow10_positive(k as nat);
            assert(pow10((k + 1) as nat) == 10 * pow10(k as nat));
        }
        divisor = sat_mul(divisor, 10);
        k = k + 1;
    }
    proof {
        lemma_pow10_positive(decimals as nat);
    }
    divisor
}

/// `link` with one more use counted.
pub open spec fn after_use(link: PaymentLink) -> PaymentLink {
    PaymentLink { use_count: (link.use_count + 1) as u32, ..link }
}

/// `now + DEFAULT_PAYMENT_DURATION_SECS`, saturating at the largest `u64`.
pub open spec fn link_payment_expiry(now: u64) -> u64 {
    if now + DEFAULT_PAYMENT_DURATION_SECS > u64::MAX {
        u64::MAX
    } else {
        (now + DEFAULT_PAYMENT_DURATION_SECS) as u64
    }
}

/// The inputs on which a use of `link` at `now` runs to its end without an
/// arithmetic fault: once the link passes its checks, the conversion of a
/// fiat amount divides by a usable rate, and a link with no use limit has
/// room to count one more use (`has_token` tells whether a token was given,
/// which a direct-transfer link needs before it is counted).
pub open spec fn use_defined(
    link: PaymentLink,
    amount: i128,
    quote: Option<OracleQuote>,
    now: u64,
    has_token: bool,
) -> bool {
    link_gate(link, now) is None ==> {
        &&& (link.fiat is Fiat && quote is Some ==> conversion_defined(
            link.fiat->Fiat_0.amount,
            quote->0,
        ))
        &&& (resolve_amount(link, amount, quote) is Ok && !(link.direct_transfer && !has_token)
            && link.max_uses is None ==> link.use_count < u32::MAX)
    }
}

/// A link as `create_link` stores it.
pub open spec fn new_link_matches(
    l: PaymentLink,
    link_id: Seq<u8>,
    merchant: Seq<u8>,
    amount: Option<i128>,
    currency: Symbol,
    description: Text,
    expires_at: Option<u64>,
    max_uses: Option<u32>,
    direct_transfer: bool,
    metadata: Option<Vec<(Text, Text)>>,
    fiat: MaybeFiatConfig,
) -> bool {
    &&& l.link_id@ == link_id
    &&& l.merchant_id@ == merchant
    &&& l.amount == amount
    &&& l.currency == currency
    &&& l.description == description
    &&& l.expires_at == expires_at
    &&& l.max_uses == max_uses
    &&& l.use_count == 0
    &&& l.active
    &&& l.direct_transfer == direct_transfer
    &&& l.metadata == metadata
    &&& l.fiat == fiat
}

/// The payment record a use of `link` by `payer` for `amount` at `now`
/// creates.
pub open spec fn link_charge_matches(
    p: PaymentCharge,
    payment_id: Seq<u8>,
    link: PaymentLink,
    payer: Seq<u8>,
    amount: i128,
    deposit_address: Seq<u8>,
    usdc_token: Option<Seq<u8>>,
    now: u64,
) -> bool {
    &&& p.payment_id@ == payment_id
    &&& p.merchant_id@ == link.merchant_id@
    &&& p.amount == amount
    &&& p.currency@ == link.currency@
    &&& p.deposit_address@ == deposit_address
    &&& p.status == PaymentStatus::Pending
    &&& opt_view(p.payer_address) == Some(payer)
    &&& p.transaction_hash is None
    &&& p.created_at == now
    &&& p.confirmed_at is None
    &&& p.expires_at == link_payment_expiry(now)
    &&& p.amount_received is None
    &&& p.memo is None
    &&& p.memo_type is None
    &&& opt_view(p.token_address) == usdc_token
    &&& p.metadata_hash is None
    &&& p.original_token is None
    &&& p.swap_path is None
    &&& p.fx_rate is None
    &&& p.fx_rate_at is None
    &&& metadata_view(p.metadata) == metadata_view(link.metadata)
}

fn link_payment_prefix_bytes() -> (p: Vec<u8>)
    ensures
        p@ == link_payment_prefix(),
{
    let p = vec![108u8, 110u8, 107u8, 95u8, 112u8, 97u8, 121u8, 95u8];
    assert(p@ =~= link_payment_prefix());
    p
}

/// The USDC amount `fiat_amount` comes to at the rate `q`.
pub fn convert_fiat(fiat_amount: i128, q: OracleQuote) -> (usdc: i128)
    requires
        conversion_defined(fiat_amount, q),
    ensures
        usdc == fiat_to_usdc(fiat_amount, q),
{
    let divisor = pow10_capped(q.decimals);
    let scaled = sat_mul(fiat_amount, divisor);
    div_trunc(scaled, q.rate)
}

/// Whether a use of `link` at `now` with `amount` offered and `quote` stays
/// within what `use_link` can compute (see `use_defined`).
pub fn use_is_defined(
    link: &PaymentLink,
    amount: i128,
    quote: Option<OracleQuote>,
    now: u64,
    has_token: bool,
) -> (b: bool)
    ensures
        b == use_defined(*link, amount, quote, now, has_token),
{
    if check_link_gate(link, now).is_some() {
        return true;
    }
    let conversion_ok = match &link.fiat {
        MaybeFiatConfig::Fiat(cfg) => match quote {
            Some(q) => q.rate != 0 && !(sat_mul(cfg.amount, pow10_capped(q.decimals)) == i128::MIN
                && q.rate == -1),
            None => true,
        },
        MaybeFiatConfig::NoFiat => true,
    };
    if !conversion_ok {
        return false;
    }
    let resolves = resolve_link_amount(link, amount, quote).is_ok();
    !(resolves && !(link.direct_transfer && !has_token) && link.max_uses.is_none() && link.use_count
        == u32::MAX)
}

/// The amount a use of `link` with `amount` offered resolves to, or why it
/// is refused; `quote` is what the link's oracle answered, if anything.
pub fn resolve_link_amount(link: &PaymentLink, amount: i128, quote: Option<OracleQuote>) -> (r:
    Result<i128, Error>)
    requires
        link.fiat is Fiat && quote is Some ==> conversion_defined(
            link.fiat->Fiat_0.amount,
            quote->0,
        ),
    ensures
        r == resolve_amount(*link, amount, quote),
{
    match &link.fiat {
        MaybeFiatConfig::Fiat(cfg) => match quote {
            None => Err(Error::StaleOracleRate),
            Some(q) => {
                let usdc = convert_fiat(cfg.amount, q);
                if let Some(fixed) = link.amount {
                    if usdc != fixed {
                        return Err(Error::InvalidAmount);
                    }
                }
                if amount != usdc {
                    Err(Error::InvalidAmount)
                } else {
                    Ok(usdc)
                }
            },
        },
        MaybeFiatConfig::NoFiat => match link.amount {
            Some(fixed) => if amount != fixed {
                Err(Error::InvalidAmount)
            } else {
                Ok(amount)
            },
            None => if amount <= 0 {
                Err(Error::InvalidAmount)
            } else {
                Ok(amount)
            },
        },
    }
}

/// Why a use of `link` at `now` is refused before any amount is looked at.
pub fn check_link_gate(link: &PaymentLink, now: u64) -> (r: Option<Error>)
    ensures
        r == link_gate(*link, now),
{
    if !link.active {
        return Some(Error::Unauthorized);
    }
    if let Some(e) = link.expires_at {
        if now > e {
            return Some(Error::PaymentExpired);
        }
    }
    if let Some(m) = link.max_uses {
        if link.use_count >= m {
            return Some(Error::PaymentAlreadyProcessed);
        }
    }
    None
}

/// A link has not been used more often than its use limit allows.
pub open spec fn within_use_limit(link: PaymentLink) -> bool {
    link.max_uses matches Some(m) ==> link.use_count <= m
}

/// A deactivated link refuses every use, at any time.
pub proof fn lemma_deactivated_link_refused(link: PaymentLink, now: u64)
    ensures
        link_gate(PaymentLink { active: false, ..link }, now) == Some(Error::Unauthorized),
{
}

/// A link that has reached its use limit refuses every further use.
pub proof fn lemma_used_up_link_refused(link: PaymentLink, now: u64)
    requires
        link.max_uses matches Some(m) && link.use_count >= m,
    ensures
        link_gate(link, now) is Some,
{
}

/// A fiat link resolves only to the converted amount at the quoted rate.
pub proof fn lemma_fiat_link_pays_converted(link: PaymentLink, amount: i128, q: OracleQuote)
    requires
        link.fiat is Fiat,
        resolve_amount(link, amount, Some(q)) is Ok,
    ensures
        resolve_amount(link, amount, Some(q)) == Ok::<i128, Error>(fiat_to_usdc(link.fiat->Fiat_0.amount, q)),
        amount == fiat_to_usdc(link.fiat->Fiat_0.amount, q),
{
}

/// The conversion of a non-negative fiat amount at a positive rate rounds
/// down: the USDC amount `u` is the largest with `u * rate` at most
/// `fiat * 10^decimals` (when that product fits in `i128`).
pub proof fn lemma_conversion_rounds_down(fiat_amount: i128, q: OracleQuote)
    requires
        fiat_amount >= 0,
        q.rate > 0,
        fiat_amount * capped_pow10(q.decimals) <= i128::MAX,
    ensures
        fiat_to_usdc(fiat_amount, q) >= 0,
        fiat_to_usdc(fiat_amount, q) * q.rate <= fiat_amount * capped_pow10(q.decimals),
        fiat_amount * capped_pow10(q.decimals) < (fiat_to_usdc(fiat_amount, q) + 1) * q.rate,
{
    lemma_pow10_positive(q.decimals as nat);
    let p = capped_pow10(q.decimals);
    assert(p >= 1);
    let s: int = fiat_amount * p;
    assert(s >= 0) by (nonlinear_arith)
        requires
            fiat_amount >= 0,
            p >= 1,
            s == fiat_amount * p,
    ;
    assert(clamp_i128(s) == s);
    let r: int = q.rate as int;
    let u: int = s / r;
    assert(u >= 0 && u * r <= s && s < (u + 1) * r) by (nonlinear_arith)
        requires
            s >= 0,
            r > 0,
            u == s / r,
    ;
    assert(trunc_div(s, r) == u);
    assert(u <= s) by (nonlinear_arith)
        requires
            u * r <= s,
            r >= 1,
            u >= 0,
    ;
}

/// A use is paid exactly what is offered, never more or less: whenever it
/// resolves, the result is the amount offered. A link without fiat pricing
/// and with a fixed amount accepts that amount and nothing else; one without
/// a fixed amount accepts any positive amount; a fiat link with a fixed
/// amount resolves only when the conversion lands on it.
pub proof fn lemma_link_pays_what_is_offered(link: PaymentLink, amount: i128, quote: Option<OracleQuote>)
    ensures
        resolve_amount(link, amount, quote) is Ok ==> resolve_amount(link, amount, quote) == Ok::<
            i128,
            Error,
        >(amount),
        link.fiat is NoFiat && link.amount is Some ==> (resolve_amount(link, amount, quote) is Ok
            <==> amount == link.amount->0),
        link.fiat is NoFiat && link.amount is None ==> (resolve_amount(link, amount, quote) is Ok
            <==> amount > 0),
        link.fiat is Fiat && link.amount is Some && resolve_amount(link, amount, quote) is Ok
            ==> amount == link.amount->0,
        link.fiat is Fiat && quote is None ==> resolve_amount(link, amount, quote) == Err::<
            i128,
            Error,
        >(Error::StaleOracleRate),
{
}

impl PaymentLinkManager {
    /// The store invariant: one record per key, and no link used beyond its
    /// use limit.
    pub open spec fn wf(&self) -> bool {
        &&& unique_keys(self.links@)
        &&& unique_keys(self.link_payment_ids@)
        &&& unique_keys(self.link_payments@)
        &&& forall|k: Seq<u8>|
            self.links_map().contains_key(k) ==> within_use_limit(#[trigger] self.links_map()[k])
    }

    /// Links by id.
    pub open spec fn links_map(&self) -> Map<Seq<u8>, PaymentLink> {
        as_map(self.links@)
    }

    /// Payment records created from links, by payment id.
    pub open spec fn payments_map(&self) -> Map<Seq<u8>, PaymentCharge> {
        as_map(self.link_payments@)
    }

    /// The payment ids created from a link, oldest first.
    pub open spec fn payment_ids_of(&self, link_id: Seq<u8>) -> Seq<Seq<u8>> {
        ids_under(self.link_payment_ids@, link_id)
    }

    /// The contract version.
    pub fn version() -> (v: u32)
        ensures
            v == 1,
    {
        1
    }

    /// A manager with nothing stored.
    pub fn new() -> (m: Self)
        ensures
            m.wf(),
            m.admin is None,
            m.links_map() == Map::<Seq<u8>, PaymentLink>::empty(),
            m.payments_map() == Map::<Seq<u8>, PaymentCharge>::empty(),
            forall|k: Seq<u8>| #[trigger] m.payment_ids_of(k) == Seq::<Seq<u8>>::empty(),
    {
        let m = PaymentLinkManager {
            admin: None,
            links: Vec::new(),
            link_payment_ids: Vec::new(),
            link_payments: Vec::new(),
        };
        assert(m.links_map() =~= Map::<Seq<u8>, PaymentLink>::empty());
        assert(m.payments_map() =~= Map::<Seq<u8>, PaymentCharge>::empty());
        m
    }

    /// Records `admin` as the administrator.
    pub fn initialize(&mut self, admin: Address)
        ensures
            final(self).admin == Some(admin),
            final(self).links == old(self).links,
            final(self).link_payment_ids == old(self).link_payment_ids,
            final(self).link_payments == old(self).link_payments,
    {
        self.admin = Some(admin);
    }

    /// The recorded administrator may upgrade the contract code.
    pub fn upgrade(&self, admin: &Address) -> (r: Result<(), Error>)
        ensures
            r is Ok <==> opt_view(self.admin) == Some(admin@),
            r is Err ==> r == Err::<(), _>(Error::Unauthorized),
    {
        match &self.admin {
            None => Err(Error::Unauthorized),
            Some(a) => if bytes_eq(a, admin) {
                Ok(())
            } else {
                Err(Error::Unauthorized)
            },
        }
    }

    /// Publishes a link for `merchant` under `link_id` (replacing any link
    /// stored there), active, with no use counted yet. Refused if the
    /// metadata has too many entries or a value that is too long.
    pub fn create_link(
        &mut self,
        merchant: &Address,
        link_id: Text,
        amount: Option<i128>,
        currency: Symbol,
        description: Text,
        expires_at: Option<u64>,
        max_uses: Option<u32>,
        direct_transfer: bool,
        metadata: Option<Vec<(Text, Text)>>,
        fiat: MaybeFiatConfig,
    ) -> (r: Result<Text, Error>)
        requires
            old(self).wf(),
            metadata matches Some(m) ==> keys_distinct(m@),
        ensures
            final(self).wf(),
            final(self).admin == old(self).admin,
            final(self).link_payment_ids == old(self).link_payment_ids,
            final(self).link_payments == old(self).link_payments,
            match metadata {
                Some(m) => metadata_ok(m@) is Err ==> r == Err::<Text, Error>(
                    metadata_ok(m@)->Err_0,
                ),
                None => true,
            },
            r is Err ==> *final(self) == *old(self),
            (metadata matches Some(m) ==> metadata_ok(m@) is Ok) ==> {
                &&& r matches Ok(id) && id@ == link_id@
                &&& final(self).links_map().dom() == old(self).links_map().dom().insert(link_id@)
                &&& forall|k: Seq<u8>|
                    k != link_id@ ==> #[trigger] final(self).links_map().get(k) == old(
                        self,
                    ).links_map().get(k)
                &&& new_link_matches(
                    final(self).links_map()[link_id@],
                    link_id@,
                    merchant@,
                    amount,
                    currency,
                    description,
                    expires_at,
                    max_uses,
                    direct_transfer,
                    metadata,
                    fiat,
                )
            },
    {
        if let Some(m) = &metadata {
            if let Err(e) = check_metadata(m) {
                return Err(e);
            }
        }
        let id_out = copy_bytes(&link_id);
        let link = PaymentLink {
            link_id,
            merchant_id: copy_bytes(merchant),
            amount,
            currency,
            description,
            expires_at,
            max_uses,
            use_count: 0,
            active: true,
            direct_transfer,
            metadata,
            fiat,
        };
        let ghost stored = link;
        put(&mut self.links, link);
        assert(self.links_map() == old(self).links_map().insert(id_out@, stored));
        Ok(id_out)
    }

    /// The oracle and currency pair to ask for a rate before `link_id` is
    /// used at `now`: only for a fiat link that would otherwise be usable.
    pub fn quote_needed(&self, link_id: &Text, now: u64) -> (r: Option<(Address, Symbol)>)
        requires
            self.wf(),
        ensures
            match r {
                Some(ask) => {
                    &&& self.links_map().contains_key(link_id@)
                    &&& link_gate(self.links_map()[link_id@], now) is None
                    &&& self.links_map()[link_id@].fiat matches MaybeFiatConfig::Fiat(cfg)
                        && ask.0@ == cfg.oracle@ && ask.1@ == cfg.currency@
                },
                None => !self.links_map().contains_key(link_id@) || link_gate(
                    self.links_map()[link_id@],
                    now,
                ) is Some || self.links_map()[link_id@].fiat is NoFiat,
            },
    {
        match find(&self.links, link_id) {
            None => None,
            Some(i) => {
                let link = &self.links[i];
                if check_link_gate(link, now).is_some() {
                    return None;
                }
                match &link.fiat {
                    MaybeFiatConfig::Fiat(cfg) => Some(
                        (copy_bytes(&cfg.oracle), copy_bytes(&cfg.currency)),
                    ),
                    MaybeFiatConfig::NoFiat => None,
                }
            },
        }
    }

    /// `payer` uses `link_id` at `now`, offering `amount`. `quote` is the
    /// rate the link's oracle gave (for a fiat link), `usdc_token` the token
    /// to pay in, `contract_address` this contract's address. On success the
    /// link counts one more use, a pending payment record `lnk_pay_<now>` is
    /// stored and filed under the link, and for a direct-transfer link the
    /// transfer from the payer to the merchant is handed back to be made.
    pub fn use_link(
        &mut self,
        payer: &Address,
        link_id: &Text,
        amount: i128,
        usdc_token: &Option<Address>,
        quote: Option<OracleQuote>,
        now: u64,
        contract_address: &Address,
    ) -> (r: Result<LinkUse, Error>)
        requires
            old(self).wf(),
            old(self).links_map().contains_key(link_id@) ==> use_defined(
                old(self).links_map()[link_id@],
                amount,
                quote,
                now,
                usdc_token is Some,
            ),
        ensures
            final(self).wf(),
            final(self).admin == old(self).admin,
            r is Err ==> *final(self) == *old(self),
            ({
                let links = old(self).links_map();
                let id = link_id@;
                if !links.contains_key(id) {
                    r == Err::<LinkUse, Error>(Error::PaymentNotFound)
                } else if link_gate(links[id], now) is Some {
                    r == Err::<LinkUse, Error>(link_gate(links[id], now)->0)
                } else if resolve_amount(links[id], amount, quote) is Err {
                    r == Err::<LinkUse, Error>(resolve_amount(links[id], amount, quote)->Err_0)
                } else if links[id].direct_transfer && usdc_token is None {
                    r == Err::<LinkUse, Error>(Error::Unauthorized)
                } else {
                    let link = links[id];
                    let paid = resolve_amount(link, amount, quote)->Ok_0;
                    let pid = format_id_spec(link_payment_prefix(), now as nat);
                    &&& r matches Ok(u) && u.payment_id@ == pid && u.amount == paid && if link.direct_transfer {
                        u.direct_transfer matches Some(t) && t.token@ == usdc_token->0@ && t.to@
                            == link.merchant_id@ && t.amount == paid
                    } else {
                        u.direct_transfer is None
                    }
                    &&& final(self).links_map() == links.insert(id, after_use(link))
                    &&& final(self).payments_map().dom() == old(self).payments_map().dom().insert(
                        pid,
                    )
                    &&& forall|k: Seq<u8>|
                        k != pid ==> #[trigger] final(self).payments_map().get(k) == old(
                            self,
                        ).payments_map().get(k)
                    &&& link_charge_matches(
                        final(self).payments_map()[pid],
                        pid,
                        link,
                        payer@,
                        paid,
                        contract_address@,
                        opt_view(*usdc_token),
                        now,
                    )
                    &&& forall|k: Seq<u8>|
                        #[trigger] final(self).payment_ids_of(k) == if k == id {
                            old(self).payment_ids_of(k).push(pid)
                        } else {
                            old(self).payment_ids_of(k)
                        }
                }
            }),
    {
        let idx = match find(&self.links, link_id) {
            None => return Err(Error::PaymentNotFound),
            Some(i) => i,
        };
        if let Some(e) = check_link_gate(&self.links[idx], now) {
            return Err(e);
        }
        let paid = match resolve_link_amount(&self.links[idx], amount, quote) {
            Err(e) => return Err(e),
            Ok(v) => v,
        };
        let direct = self.links[idx].direct_transfer;
        if direct && usdc_token.is_none() {
            return Err(Error::Unauthorized);
        }
        let ghost links0 = self.links_map();
        let ghost id = link_id@;
        let mut link = take_at(&mut self.links, idx);
        let ghost before = link;
        link.use_count = link.use_count + 1;
        assert(link == after_use(before));
        let merchant = copy_bytes(&link.merchant_id);
        let currency = copy_bytes(&link.currency);
        let metadata = copy_metadata(&link.metadata);
        put(&mut self.links, link);
        proof {
            lemma_replace(links0, id, after_use(before));
        }
        let prefix = link_payment_prefix_bytes();
        let payment_id = format_id(prefix.as_slice(), now);
        let expires_at = match now.checked_add(DEFAULT_PAYMENT_DURATION_SECS) {
            Some(t) => t,
            None => u64::MAX,
        };
        let payment = PaymentCharge {
            payment_id: copy_bytes(&payment_id),
            merchant_id: copy_bytes(&merchant),
            amount: paid,
            currency,
            deposit_address: copy_bytes(contract_address),
            status: PaymentStatus::Pending,
            payer_address: Some(copy_bytes(payer)),
            transaction_hash: None,
            created_at: now,
            confirmed_at: None,
            expires_at,
            amount_received: None,
            memo: None,
            memo_type: None,
            token_address: copy_opt_bytes(usdc_token),
            metadata_hash: None,
            original_token: None,
            swap_path: None,
            fx_rate: None,
            fx_rate_at: None,
            metadata,
        };
        put(&mut self.link_payments, payment);
        append_id(&mut self.link_payment_ids, link_id, &payment_id);
        let transfer = if direct {
            match usdc_token {
                Some(t) => Some(TokenTransfer { token: copy_bytes(t), to: merchant, amount: paid }),
                None => None,
            }
        } else {
            None
        };
        Ok(LinkUse { payment_id, amount: paid, direct_transfer: transfer })
    }

    /// The link's merchant stops further uses of `link_id`.
    pub fn deactivate_link(&mut self, merchant: &Address, link_id: &Text) -> (r: Result<(), Error>)
        requires
            old(self).wf(),
        ensures
            final(self).wf(),
            final(self).admin == old(self).admin,
            final(self).link_payment_ids == old(self).link_payment_ids,
            final(self).link_payments == old(self).link_payments,
            r is Err ==> *final(self) == *old(self),
            ({
                let links = old(self).links_map();
                let id = link_id@;
                if !links.contains_key(id) {
                    r == Err::<(), Error>(Error::PaymentNotFound)
                } else if links[id].merchant_id@ != merchant@ {
                    r == Err::<(), Error>(Error::Unauthorized)
                } else {
                    &&& r is Ok
                    &&& final(self).links_map() == links.insert(
                        id,
                        PaymentLink { active: false, ..links[id] },
                    )
                }
            }),
    {
        let idx = match find(&self.links, link_id) {
            None => return Err(Error::PaymentNotFound),
            Some(i) => i,
        };
        if !bytes_eq(&self.links[idx].merchant_id, merchant) {
            return Err(Error::Unauthorized);
        }
        let ghost links0 = self.links_map();
        let mut link = take_at(&mut self.links, idx);
        let ghost before = link;
        link.active = false;
        assert(link == PaymentLink { active: false, ..before });
        put(&mut self.links, link);
        proof {
            lemma_replace(links0, link_id@, PaymentLink { active: false, ..before });
        }
        Ok(())
    }

    /// The link stored under `link_id`.
    pub fn get_link(&self, link_id: &Text) -> (r: Result<&PaymentLink, Error>)
        requires
            self.wf(),
        ensures
            match r {
                Ok(l) => self.links_map().contains_key(link_id@) && *l == self.links_map()[link_id@],
                Err(e) => !self.links_map().contains_key(link_id@) && e == Error::PaymentNotFound,
            },
    {
        match find(&self.links, link_id) {
            None => Err(Error::PaymentNotFound),
            Some(i) => Ok(&self.links[i]),
        }
    }

    /// The payment record created from a link under `payment_id`.
    pub fn get_payment(&self, payment_id: &Text) -> (r: Result<&PaymentCharge, Error>)
        requires
            self.wf(),
        ensures
            match r {
                Ok(p) => self.payments_map().contains_key(payment_id@) && *p
                    == self.payments_map()[payment_id@],
                Err(e) => !self.payments_map().contains_key(payment_id@) && e
                    == Error::PaymentNotFound,
            },
    {
        match find(&self.link_payments, payment_id) {
            None => Err(Error::PaymentNotFound),
            Some(i) => Ok(&self.link_payments[i]),
        }
    }

    /// The payment ids created from `link_id`, oldest first (none for an
    /// unknown link).
    pub fn get_link_payments(&self, link_id: &Text) -> (r: Result<Vec<Text>, Error>)
        requires
            self.wf(),
        ensures
            r matches Ok(ids) && seq_view(ids@) == self.payment_ids_of(link_id@),
    {
        Ok(get_ids(&self.link_payment_ids, link_id))
    }

    /// For each id in `link_ids`, in order: the id, whether the link is
    /// active, its use count and its use limit; an unknown id reads as
    /// inactive, unused and unlimited.
    pub fn verify_batch(&self, link_ids: &Vec<Text>) -> (r: Vec<LinkStatus>)
        requires
            self.wf(),
        ensures
            r@.len() == link_ids@.len(),
            forall|i: int|
                0 <= i < r@.len() ==> {
                    let id = link_ids@[i]@;
                    let st = #[trigger] r@[i];
                    &&& st.0@ == id
                    &&& if self.links_map().contains_key(id) {
                        let l = self.links_map()[id];
                        st.1 == l.active && st.2 == l.use_count && st.3 == l.max_uses
                    } else {
                        !st.1 && st.2 == 0 && st.3 is None
                    }
                },
    {
        let mut out: Vec<LinkStatus> = Vec::new();
        let mut i: usize = 0;
        while i < link_ids.len()
            invariant
                self.wf(),
                i <= link_ids@.len(),
                out@.len() == i,
                forall|j: int|
                    0 <= j < i ==> {
                        let id = link_ids@[j]@;
                        let st = #[trigger] out@[j];
                        &&& st.0@ == id
                        &&& if self.links_map().contains_key(id) {
                            let l = self.links_map()[id];
                            st.1 == l.active && st.2 == l.use_count && st.3 == l.max_uses
                        } else {
                            !st.1 && st.2 == 0 && st.3 is None
                        }
                    },
            decreases link_ids.len() - i,
        {
            let id = &link_ids[i];
            let st: LinkStatus = match find(&self.links, id) {
                Some(k) => {
                    let l = &self.links[k];
                    (copy_bytes(id), l.active, l.use_count, l.max_uses)
                },
                None => (copy_bytes(id), false, 0, None),
            };
            out.push(st);
            i = i + 1;
        }
        out
    }
}

} // verus!

//! Byte strings, the plain-value form of the ledger's strings, symbols and
//! addresses, and the decimal identifiers built from counters.
use vstd::prelude::*;

use crate::math::pow10;

verus! {

/// A ledger string: a sequence of bytes.
pub type Text = Vec<u8>;

/// A ledger account or contract address, held as its string encoding.
pub type Address = Vec<u8>;

/// A short ledger symbol (role names, currency codes, rate pairs).
pub type Symbol = Vec<u8>;

/// Longest identifier that `format_id` produces, in bytes.
pub const MAX_ID_LEN: usize = 64;

/// Most decimal digits a `u64` has.
pub const MAX_U64_DIGITS: usize = 20;

/// Byte-wise equality of two ledger strings.
pub fn bytes_eq(a: &Vec<u8>, b: &Vec<u8>) -> (eq: bool)
    ensures
        eq == (a@ == b@),
{
    if a.len() != b.len() {
        return false;
    }
    let mut i: usize = 0;
    while i < a.len()
        invariant
            a.len() == b.len(),
            i <= a.len(),
            forall|j: int| 0 <= j < i ==> a@[j] == b@[j],
        decreases a.len() - i,
    {
        if a[i] != b[i] {
            return false;
        }
        i = i + 1;
    }
    assert(a@ =~= b@);
    true
}

/// A fresh copy of a ledger string.
pub fn copy_bytes(a: &Vec<u8>) -> (c: Vec<u8>)
    ensures
        c@ == a@,
{
    let mut c: Vec<u8> = Vec::new();
    let mut i: usize = 0;
    while i < a.len()
        invariant
            i <= a.len(),
            c@ == a@.subrange(0, i as int),
        decreases a.len() - i,
    {
        c.push(a[i]);
        i = i + 1;
        assert(c@ =~= a@.subrange(0, i as int));
    }
    assert(a@.subrange(0, a@.len() as int) =~= a@);
    c
}

/// A copy of an optional ledger string.
pub fn copy_opt_bytes(a: &Option<Vec<u8>>) -> (c: Option<Vec<u8>>)
    ensures
        c is Some <==> a is Some,
        c is Some ==> c->0@ == a->0@,
{
    match a {
        Some(v) => Some(copy_bytes(v)),
        None => None,
    }
}

/// The mathematical value of an optional ledger string.
pub open spec fn opt_view(o: Option<Vec<u8>>) -> Option<Seq<u8>> {
    match o {
        Some(v) => Some(v@),
        None => None,
    }
}

/// The mathematical values of a list of ledger strings.
pub open spec fn seq_view(s: Seq<Vec<u8>>) -> Seq<Seq<u8>> {
    s.map_values(|v: Vec<u8>| v@)
}

/// A fresh copy of a list of ledger strings.
pub fn copy_bytes_list(a: &Vec<Vec<u8>>) -> (c: Vec<Vec<u8>>)
    ensures
        seq_view(c@) == seq_view(a@),
{
    let mut c: Vec<Vec<u8>> = Vec::new();
    let mut i: usize = 0;
    while i < a.len()
        invariant
            i <= a.len(),
            c@.len() == i,
            forall|j: int| 0 <= j < i ==> #[trigger] c@[j]@ == a@[j]@,
        decreases a.len() - i,
    {
        c.push(copy_bytes(&a[i]));
        i = i + 1;
    }
    assert(seq_view(c@) =~= seq_view(a@));
    c
}

/// Whether `needle` occurs in `list`.
pub fn list_contains(list: &Vec<Vec<u8>>, needle: &Vec<u8>) -> (found: bool)
    ensures
        found == seq_view(list@).contains(needle@),
{
    let mut i: usize = 0;
    while i < list.len()
        invariant
            i <= list.len(),
            forall|j: int| 0 <= j < i ==> #[trigger] list@[j]@ != needle@,
        decreases list.len() - i,
    {
        if bytes_eq(&list[i], needle) {
            assert(seq_view(list@)[i as int] == needle@);
            return true;
        }
        i = i + 1;
    }
    assert(!seq_view(list@).contains(needle@)) by {
        if seq_view(list@).contains(needle@) {
            let j = choose|j: int| 0 <= j < seq_view(list@).len() && seq_view(list@)[j] == needle@;
            assert(list@[j]@ == needle@);
        }
    }
    false
}

/// The ASCII decimal digit for `d`.
pub open spec fn digit(d: nat) -> u8 {
    (48 + d % 10) as u8
}

/// The decimal representation of `n`, most significant digit first, with no
/// leading zeros (`0` is written as a single `'0'`).
pub open spec fn decimal(n: nat) -> Seq<u8>
    decreases n,
{
    if n < 10 {
        seq![digit(n)]
    } else {
        decimal(n / 10).push(digit(n))
    }
}

/// The decimal digits of `n`, least significant first.
pub open spec fn decimal_rev(n: nat) -> Seq<u8>
    decreases n,
{
    if n < 10 {
        seq![digit(n)]
    } else {
        seq![digit(n)] + decimal_rev(n / 10)
    }
}

/// The identifier made of `prefix` followed by the decimal form of `n`,
/// cut to its first `MAX_ID_LEN` bytes.
pub open spec fn format_id_spec(prefix: Seq<u8>, n: nat) -> Seq<u8> {
    let full = prefix + decimal(n);
    if full.len() <= MAX_ID_LEN {
        full
    } else {
        full.take(MAX_ID_LEN as int)
    }
}

proof fn lemma_decimal_rev_reverse(n: nat)
    ensures
        decimal_rev(n).reverse() =~= decimal(n),
    decreases n,
{
    if n >= 10 {
        lemma_decimal_rev_reverse(n / 10);
        let t = decimal_rev(n / 10);
        assert((seq![digit(n)] + t).reverse() =~= t.reverse().push(digit(n)));
    }
}

/// Builds the identifier `prefix` + decimal(`n`), at most `MAX_ID_LEN` bytes
/// long (the form of the refund, dispute and link-payment identifiers, such
/// as `refund_1`).
pub fn format_id(prefix: &[u8], n: u64) -> (id: Vec<u8>)
    ensures
        id@ == format_id_spec(prefix@, n as nat),
{
    let mut result: Vec<u8> = Vec::new();
    let mut i: usize = 0;
    while i < prefix.len()
        invariant
            i <= prefix.len(),
            result@ == prefix@.subrange(0, i as int),
        decreases prefix.len() - i,
    {
        result.push(prefix[i]);
        i = i + 1;
        assert(result@ =~= prefix@.subrange(0, i as int));
    }
    assert(prefix@.subrange(0, prefix@.len() as int) =~= prefix@);

    let mut temp: Vec<u8> = Vec::new();
    let mut num: u64 = n;
    loop
        invariant_except_break
            num > 0 || temp@.len() == 0,
            num == 0 ==> n == 0,
            decimal_rev(n as nat) =~= temp@ + decimal_rev(num as nat),
        ensures
            temp@ =~= decimal_rev(n as nat),
        decreases num,
    {
        let d: u64 = num % 10;
        temp.push((d as u8) + 48);
        let ghost old_num = num;
        num = num / 10;
        proof {
            assert(digit(old_num as nat) == (d as u8) + 48);
            if old_num >= 10 {
                assert(decimal_rev(old_num as nat) =~= seq![digit(old_num as nat)]
                    + decimal_rev(num as nat));
            }
        }
        if num == 0 {
            break;
        }
    }
    proof {
        lemma_decimal_rev_reverse(n as nat);
    }
    let len = temp.len();
    let mut k: usize = 0;
    while k < len
        invariant
            len == temp@.len(),
            k <= len,
            result@ =~= prefix@ + temp@.reverse().take(k as int),
        decreases len - k,
    {
        result.push(temp[len - k - 1]);
        k = k + 1;
        assert(result@ =~= prefix@ + temp@.reverse().take(k as int));
    }
    assert(temp@.reverse().take(len as int) =~= temp@.reverse());
    if result.len() > MAX_ID_LEN {
        result.truncate(MAX_ID_LEN);
    }
    result
}

/// The decimal form of a number is never empty, and is one digit long
/// exactly for the numbers below ten.
pub proof fn lemma_decimal_len(n: nat)
    ensures
        decimal(n).len() >= 1,
        (n < 10) <==> decimal(n).len() == 1,
    decreases n,
{
    if n >= 10 {
        lemma_decimal_len(n / 10);
    }
}

/// A number below `10^k` (for `k` at least one) has at most `k` digits.
pub proof fn lemma_decimal_len_bound(n: nat, k: nat)
    requires
        k >= 1,
        n < pow10(k),
    ensures
        decimal(n).len() <= k,
    decreases n,
{
    lemma_decimal_len(n);
    if n >= 10 {
        let k1 = (k - 1) as nat;
        assert(pow10(k) == 10 * pow10(k1));
        assert(n / 10 < pow10(k1)) by (nonlinear_arith)
            requires
                n < 10 * pow10(k1),
        ;
        if k1 == 0 {
            assert(pow10(0) == 1);
        } else {
            lemma_decimal_len_bound(n / 10, k1);
        }
    }
}

/// Different numbers have different decimal forms.
pub proof fn lemma_decimal_injective(n: nat, m: nat)
    requires
        decimal(n) == decimal(m),
    ensures
        n == m,
    decreases n,
{
    lemma_decimal_len(n);
    lemma_decimal_len(m);
    assert(digit(n) == 48 + n % 10);
    assert(digit(m) == 48 + m % 10);
    if n < 10 {
        assert(m < 10);
        assert(decimal(n) == seq![digit(n)]);
        assert(decimal(m) == seq![digit(m)]);
        assert(seq![digit(n)][0] == digit(n));
        assert(seq![digit(m)][0] == digit(m));
        assert(digit(n) == digit(m));
        assert(n % 10 == m % 10);
    } else {
        assert(m >= 10);
        let a = decimal(n / 10);
        let b = decimal(m / 10);
        assert(decimal(n).drop_last() =~= a);
        assert(decimal(m).drop_last() =~= b);
        assert(decimal(n).last() == digit(n));
        assert(decimal(m).last() == digit(m));
        assert(digit(n) == digit(m));
        assert(n % 10 == m % 10);
        lemma_decimal_injective(n / 10, m / 10);
        assert(n == 10 * (n / 10) + n % 10);
        assert(m == 10 * (m / 10) + m % 10);
    }
}

/// Every `u64` has at most `MAX_U64_DIGITS` decimal digits.
pub proof fn lemma_u64_digits(n: u64)
    ensures
        decimal(n as nat).len() <= MAX_U64_DIGITS,
{
    assert(pow10(20) == 100000000000000000000) by {
        reveal_with_fuel(pow10, 21);
    }
    lemma_decimal_len_bound(n as nat, 20);
}

/// Identifiers built from one prefix, short enough to leave room for every
/// `u64` counter, and two different counters are different.
pub proof fn lemma_format_id_injective(prefix: Seq<u8>, n: u64, m: u64)
    requires
        prefix.len() + MAX_U64_DIGITS <= MAX_ID_LEN,
        n != m,
    ensures
        format_id_spec(prefix, n as nat) != format_id_spec(prefix, m as nat),
{
    lemma_u64_digits(n);
    lemma_u64_digits(m);
    if format_id_spec(prefix, n as nat) == format_id_spec(prefix, m as nat) {
        let a = prefix + decimal(n as nat);
        let b = prefix + decimal(m as nat);
        assert(a.subrange(prefix.len() as int, a.len() as int) =~= decimal(n as nat));
        assert(b.subrange(prefix.len() as int, b.len() as int) =~= decimal(m as nat));
        lemma_decimal_injective(n as nat, m as nat);
    }
}

/// Every member of `ids` is the identifier of a counter value from one to
/// `count`.
pub open spec fn ids_counted(ids: Set<Seq<u8>>, prefix: Seq<u8>, count: u64) -> bool {
    forall|k: Seq<u8>|
        ids.contains(k) ==> exists|n: u64| 1 <= n <= count && #[trigger] format_id_spec(prefix, n as nat) == k
}

/// When every stored identifier comes from a counter value up to `count`,
/// the identifier of the next counter value is not stored yet, and storing
/// it keeps every identifier counted.
pub proof fn lemma_next_id_fresh(ids: Set<Seq<u8>>, prefix: Seq<u8>, count: u64)
    requires
        ids_counted(ids, prefix, count),
        prefix.len() + MAX_U64_DIGITS <= MAX_ID_LEN,
        count < u64::MAX,
    ensures
        !ids.contains(format_id_spec(prefix, (count + 1) as nat)),
        ids_counted(ids.insert(format_id_spec(prefix, (count + 1) as nat)), prefix, (count + 1) as u64),
{
    let next = (count + 1) as u64;
    let id = format_id_spec(prefix, next as nat);
    if ids.contains(id) {
        let n = choose|n: u64| 1 <= n <= count && #[trigger] format_id_spec(prefix, n as nat) == id;
        lemma_format_id_injective(prefix, n, next);
    }
    assert forall|k: Seq<u8>| ids.insert(id).contains(k) implies exists|n: u64|
        1 <= n <= next && #[trigger] format_id_spec(prefix, n as nat) == k by {
        if k == id {
            assert(format_id_spec(prefix, next as nat) == k);
        } else {
            let n = choose|n: u64| 1 <= n <= count && #[trigger] format_id_spec(prefix, n as nat) == k;
            assert(format_id_spec(prefix, n as nat) == k);
        }
    }
}

/// The strkey of the all-zero contract address, which stands for "no
/// address" and is never a valid admin or token.
pub open spec fn zero_contract_address() -> Seq<u8> {
    seq![67u8] + Seq::new(51, |i: int| 65u8) + seq![66u8, 83u8, 67u8, 52u8]
}

/// Whether `a` is the all-zero contract address.
pub fn is_zero_address(a: &Address) -> (z: bool)
    ensures
        z == (a@ == zero_contract_address()),
{
    let mut zero: Vec<u8> = vec![67u8];
    let mut i: usize = 0;
    while i < 51
        invariant
            i <= 51,
            zero@ == seq![67u8] + Seq::new(i as nat, |j: int| 65u8),
        decreases 51 - i,
    {
        zero.push(65u8);
        i = i + 1;
        assert(zero@ =~= seq![67u8] + Seq::new(i as nat, |j: int| 65u8));
    }
    zero.push(66u8);
    zero.push(83u8);
    zero.push(67u8);
    zero.push(52u8);
    assert(zero@ =~= zero_contract_address());
    bytes_eq(a, &zero)
}

} // verus!

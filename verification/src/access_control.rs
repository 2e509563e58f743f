//! Role-based access control shared by the contracts: role grants with a
//! member index, a revocation cooldown for critical roles, two-step admin
//! transfer, a recovery key, and multi-signature admin proposals.
use vstd::prelude::*;

use crate::store::{
    as_map, find, lemma_map_from_lookups, lemma_remove_at, put, remove_key, unique_keys, Keyed,
};
use crate::text::{
    bytes_eq, copy_bytes, copy_bytes_list, copy_opt_bytes, list_contains, opt_view, seq_view,
    Address, Symbol,
};

verus! {

/// Seconds a critical-role revocation waits before it can be finalized.
pub const REVOCATION_COOLDOWN_SECS: u64 = 86_400;

/// Seconds after creation during which a proposal can still be executed.
pub const PROPOSAL_LIFETIME_SECS: u64 = 604_800;

/// Admin transfer lock-in set by `initialize` (seven days).
pub const DEFAULT_ADMIN_TRANSFER_LOCK_IN: u64 = 604_800;

/// Admin transfer lock-in set by a recovery-initiated transfer (thirty days).
pub const RECOVERY_ADMIN_TRANSFER_LOCK_IN: u64 = 2_592_000;

/// `ADMIN`
pub open spec fn admin_role() -> Seq<u8> {
    seq![65u8, 68u8, 77u8, 73u8, 78u8]
}

/// `ORACLE`
pub open spec fn oracle_role() -> Seq<u8> {
    seq![79u8, 82u8, 65u8, 67u8, 76u8, 69u8]
}

/// `MERCHANT`
pub open spec fn merchant_role() -> Seq<u8> {
    seq![77u8, 69u8, 82u8, 67u8, 72u8, 65u8, 78u8, 84u8]
}

/// `SETTLEMENT_OPERATOR`
pub open spec fn settlement_operator_role() -> Seq<u8> {
    seq![
        83u8,
        69u8,
        84u8,
        84u8,
        76u8,
        69u8,
        77u8,
        69u8,
        78u8,
        84u8,
        95u8,
        79u8,
        80u8,
        69u8,
        82u8,
        65u8,
        84u8,
        79u8,
        82u8,
    ]
}

/// `ARBITRATOR`
pub open spec fn arbitrator_role() -> Seq<u8> {
    seq![65u8, 82u8, 66u8, 73u8, 84u8, 82u8, 65u8, 84u8, 79u8, 82u8]
}

/// The administrator role symbol.
pub fn role_admin() -> (r: Symbol)
    ensures
        r@ == admin_role(),
{
    let r = vec![65u8, 68u8, 77u8, 73u8, 78u8];
    assert(r@ =~= admin_role());
    r
}

/// The oracle role symbol.
pub fn role_oracle() -> (r: Symbol)
    ensures
        r@ == oracle_role(),
{
    let r = vec![79u8, 82u8, 65u8, 67u8, 76u8, 69u8];
    assert(r@ =~= oracle_role());
    r
}

/// The merchant role symbol.
pub fn role_merchant() -> (r: Symbol)
    ensures
        r@ == merchant_role(),
{
    let r = vec![77u8, 69u8, 82u8, 67u8, 72u8, 65u8, 78u8, 84u8];
    assert(r@ =~= merchant_role());
    r
}

/// The settlement operator role symbol.
pub fn role_settlement_operator() -> (r: Symbol)
    ensures
        r@ == settlement_operator_role(),
{
    let r = vec![
        83u8,
        69u8,
        84u8,
        84u8,
        76u8,
        69u8,
        77u8,
        69u8,
        78u8,
        84u8,
        95u8,
        79u8,
        80u8,
        69u8,
        82u8,
        65u8,
        84u8,
        79u8,
        82u8,
    ];
    assert(r@ =~= settlement_operator_role());
    r
}

/// The arbitrator role symbol.
pub fn role_arbitrator() -> (r: Symbol)
    ensures
        r@ == arbitrator_role(),
{
    let r = vec![65u8, 82u8, 66u8, 73u8, 84u8, 82u8, 65u8, 84u8, 79u8, 82u8];
    assert(r@ =~= arbitrator_role());
    r
}

/// Errors of the access-control operations.
#[derive(Clone, Copy, Debug, PartialEq, Eq, Structural)]
pub enum AccessControlError {
    Unauthorized,
    RoleAlreadyGranted,
    RoleNotGranted,
    CannotRenounceAdmin,
    InvalidAdmin,
    RevocationCooldownActive,
    NoPendingRevocation,
    RecoveryKeyNotSet,
    ProposalNotFound,
    ProposalAlreadyVoted,
    ProposalExpired,
    ProposalThresholdNotMet,
    PendingAdminTransfer,
    InvalidRecovery,
    TransferLockInActive,
}

/// A role revocation waiting for its cooldown to end.
#[derive(Debug, PartialEq, Eq)]
pub struct PendingRevocation {
    pub role: Symbol,
    pub account: Address,
    pub created_at: u64,
}

impl Keyed for PendingRevocation {
    type Key = (Symbol, Address);

    type KV = (Seq<u8>, Seq<u8>);

    open spec fn key_of(&self) -> (Seq<u8>, Seq<u8>) {
        (self.role@, self.account@)
    }

    open spec fn key_view(k: &(Symbol, Address)) -> (Seq<u8>, Seq<u8>) {
        (k.0@, k.1@)
    }

    fn same_key(&self, other: &Self) -> (b: bool) {
        bytes_eq(&self.role, &other.role) && bytes_eq(&self.account, &other.account)
    }

    fn has_key(&self, k: &(Symbol, Address)) -> (b: bool) {
        bytes_eq(&self.role, &k.0) && bytes_eq(&self.account, &k.1)
    }
}

/// An administrative action that a multi-signature proposal carries out.
#[derive(Debug, PartialEq, Eq)]
pub enum AdminAction {
    SetGlobalPause(bool, Symbol),
    AllowToken(Address),
    GrantRole(Symbol, Address),
    RevokeRole(Symbol, Address),
    TransferAdmin(Address),
    EmergencyRevokeRole(Symbol, Address),
}

/// A multi-signature proposal and the signers that approved it.
#[derive(Debug, PartialEq, Eq)]
pub struct AdminProposal {
    pub nonce: u64,
    pub action: AdminAction,
    pub approvals: Vec<Address>,
    pub created_at: u64,
}

impl Keyed for AdminProposal {
    type Key = u64;

    type KV = u64;

    open spec fn key_of(&self) -> u64 {
        self.nonce
    }

    open spec fn key_view(k: &u64) -> u64 {
        *k
    }

    fn same_key(&self, other: &Self) -> (b: bool) {
        self.nonce == other.nonce
    }

    fn has_key(&self, k: &u64) -> (b: bool) {
        self.nonce == *k
    }
}

/// One granted (role, account) pair.
#[derive(Debug, PartialEq, Eq)]
pub struct RoleGrant {
    pub role: Symbol,
    pub account: Address,
}

/// The admin and the granted roles, in the order they were granted.
#[derive(Debug)]
pub struct Roles {
    pub admin: Option<Address>,
    pub grants: Vec<RoleGrant>,
}

/// State of the two-step admin transfer and the recovery key.
#[derive(Debug)]
pub struct AdminTransfer {
    pub pending: Option<(Address, u64)>,
    pub lock_in: Option<u64>,
    pub recovery_key: Option<Address>,
    /// The pending transfer was started by the recovery key, and waits for
    /// the lock-in before it can be claimed.
    pub by_recovery: bool,
}

/// Multi-signature configuration and the open proposals.
#[derive(Debug)]
pub struct Multisig {
    pub config: Option<(u32, Vec<Address>)>,
    pub next_nonce: Option<u64>,
    pub proposals: Vec<AdminProposal>,
}

/// The access-control state of one contract.
#[derive(Debug)]
pub struct AccessControl {
    pub roles: Roles,
    pub revocations: Vec<PendingRevocation>,
    pub transfer: AdminTransfer,
    pub multisig: Multisig,
}

/// Whether an action that a revocation starts must wait for the cooldown.
pub open spec fn is_critical_role(role: Seq<u8>) -> bool {
    role == oracle_role() || role == settlement_operator_role()
}

/// The accounts holding `role`, in the order in which the roles were granted.
pub open spec fn members_of(pairs: Seq<(Seq<u8>, Seq<u8>)>, role: Seq<u8>) -> Seq<Seq<u8>>
    decreases pairs.len(),
{
    if pairs.len() == 0 {
        Seq::empty()
    } else {
        let rest = members_of(pairs.drop_last(), role);
        if pairs.last().0 == role {
            rest.push(pairs.last().1)
        } else {
            rest
        }
    }
}

/// The granted pairs after granting `p`.
pub open spec fn with_grant(pairs: Seq<(Seq<u8>, Seq<u8>)>, p: (Seq<u8>, Seq<u8>)) -> Seq<
    (Seq<u8>, Seq<u8>),
> {
    if pairs.contains(p) {
        pairs
    } else {
        pairs.push(p)
    }
}

/// The granted pairs after revoking `p`.
pub open spec fn without_grant(pairs: Seq<(Seq<u8>, Seq<u8>)>, p: (Seq<u8>, Seq<u8>)) -> Seq<
    (Seq<u8>, Seq<u8>),
> {
    if pairs.contains(p) {
        pairs.remove(pairs.index_of(p))
    } else {
        pairs
    }
}

/// Granting `p` adds exactly `p` to what is granted.
pub proof fn lemma_with_grant_adds_only(pairs: Seq<(Seq<u8>, Seq<u8>)>, p: (Seq<u8>, Seq<u8>), q: (
    Seq<u8>,
    Seq<u8>,
))
    ensures
        with_grant(pairs, p).contains(q) <==> (pairs.contains(q) || q == p),
{
    if !pairs.contains(p) {
        let w = pairs.push(p);
        assert(w[pairs.len() as int] == p);
        if pairs.contains(q) {
            let j = choose|j: int| 0 <= j < pairs.len() && pairs[j] == q;
            assert(w[j] == q);
        }
        if w.contains(q) && q != p {
            let j = choose|j: int| 0 <= j < w.len() && w[j] == q;
            assert(pairs[j] == q);
        }
    }
}

/// Revoking `p` from grants without repeats takes away exactly `p`.
pub proof fn lemma_without_grant_drops_only(pairs: Seq<(Seq<u8>, Seq<u8>)>, p: (Seq<u8>, Seq<u8>), q: (
    Seq<u8>,
    Seq<u8>,
))
    requires
        pairs.no_duplicates(),
    ensures
        without_grant(pairs, p).contains(q) <==> (pairs.contains(q) && q != p),
{
    if pairs.contains(p) {
        let i = pairs.index_of(p);
        assert(0 <= i < pairs.len() && pairs[i] == p);
        let r = pairs.remove(i);
        if r.contains(q) {
            let j = choose|j: int| 0 <= j < r.len() && r[j] == q;
            if j < i {
                assert(pairs[j] == q);
            } else {
                assert(pairs[j + 1] == q);
            }
        }
        if pairs.contains(q) && q != p {
            let j = choose|j: int| 0 <= j < pairs.len() && pairs[j] == q;
            assert(j != i);
            if j < i {
                assert(r[j] == q);
            } else {
                assert(r[j - 1] == q);
            }
        }
    }
}

/// What an approved proposal's action does to the grants: a role grant
/// adds its pair (refused if already granted), a revocation, ordinary or
/// emergency, takes its pair away (refused if not granted), an admin
/// transfer takes the admin role from the current admin and gives it to the
/// new one, and a pause or token allowance leaves the grants alone. Every
/// other pair stays as it was.
pub proof fn lemma_proposal_action_effect(
    pairs: Seq<(Seq<u8>, Seq<u8>)>,
    admin: Option<Seq<u8>>,
    action: AdminAction,
    q: (Seq<u8>, Seq<u8>),
)
    requires
        pairs.no_duplicates(),
    ensures
        match action {
            AdminAction::GrantRole(g, a) => {
                &&& (apply_action(pairs, admin, action) is Err <==> pairs.contains((g@, a@)))
                &&& apply_action(pairs, admin, action) matches Ok(out) ==> out.1 == admin && (
                out.0.contains(q) <==> (pairs.contains(q) || q == (g@, a@)))
            },
            AdminAction::RevokeRole(g, a) => {
                &&& (apply_action(pairs, admin, action) is Err <==> !pairs.contains((g@, a@)))
                &&& apply_action(pairs, admin, action) matches Ok(out) ==> out.1 == admin && (
                out.0.contains(q) <==> (pairs.contains(q) && q != (g@, a@)))
            },
            AdminAction::EmergencyRevokeRole(g, a) => {
                &&& (apply_action(pairs, admin, action) is Err <==> !pairs.contains((g@, a@)))
                &&& apply_action(pairs, admin, action) matches Ok(out) ==> out.1 == admin && (
                out.0.contains(q) <==> (pairs.contains(q) && q != (g@, a@)))
            },
            AdminAction::TransferAdmin(n) => {
                &&& apply_action(pairs, admin, action) is Ok
                &&& apply_action(pairs, admin, action) matches Ok(out) ==> out.1 == Some(n@) && (
                out.0.contains(q) <==> if q.0 == admin_role() {
                    (pairs.contains(q) && q.1 != admin->0) || q.1 == n@
                } else {
                    pairs.contains(q)
                })
            },
            _ => apply_action(pairs, admin, action) == Ok::<_, AccessControlError>((pairs, admin)),
        },
{
    match action {
        AdminAction::GrantRole(g, a) => {
            lemma_with_grant_adds_only(pairs, (g@, a@), q);
        },
        AdminAction::RevokeRole(g, a) => {
            lemma_without_grant_drops_only(pairs, (g@, a@), q);
        },
        AdminAction::EmergencyRevokeRole(g, a) => {
            lemma_without_grant_drops_only(pairs, (g@, a@), q);
        },
        AdminAction::TransferAdmin(n) => {
            let w = without_grant(pairs, (admin_role(), admin->0));
            lemma_without_grant_drops_only(pairs, (admin_role(), admin->0), q);
            lemma_with_grant_adds_only(w, (admin_role(), n@), q);
        },
        _ => {},
    }
}

/// An account is listed among the members of a role exactly when it holds
/// the role.
pub proof fn lemma_members_of_contains(
    pairs: Seq<(Seq<u8>, Seq<u8>)>,
    role: Seq<u8>,
    account: Seq<u8>,
)
    ensures
        members_of(pairs, role).contains(account) <==> pairs.contains((role, account)),
    decreases pairs.len(),
{
    if pairs.len() > 0 {
        let init = pairs.drop_last();
        lemma_members_of_contains(init, role, account);
        assert(pairs =~= init.push(pairs.last()));
        let rest = members_of(init, role);
        if pairs.contains((role, account)) {
            let i = choose|i: int| 0 <= i < pairs.len() && pairs[i] == (role, account);
            if i < pairs.len() - 1 {
                assert(init[i] == (role, account));
                let j = choose|j: int| 0 <= j < rest.len() && rest[j] == account;
                if pairs.last().0 == role {
                    assert(rest.push(pairs.last().1)[j] == account);
                }
            } else {
                assert(members_of(pairs, role)[rest.len() as int] == account);
            }
        }
        if members_of(pairs, role).contains(account) {
            let j = choose|j: int|
                0 <= j < members_of(pairs, role).len() && members_of(pairs, role)[j] == account;
            if j < rest.len() {
                assert(rest[j] == account);
                let i = choose|i: int| 0 <= i < init.len() && init[i] == (role, account);
                assert(pairs[i] == (role, account));
            } else {
                assert(pairs[pairs.len() - 1] == (role, account));
            }
        }
    }
}

/// The members of a role, read from grants with no pair twice, list no
/// account twice.
pub proof fn lemma_members_of_distinct(pairs: Seq<(Seq<u8>, Seq<u8>)>, role: Seq<u8>)
    requires
        pairs.no_duplicates(),
    ensures
        members_of(pairs, role).no_duplicates(),
    decreases pairs.len(),
{
    if pairs.len() > 0 {
        let init = pairs.drop_last();
        assert(init.no_duplicates()) by {
            assert forall|i: int, j: int| 0 <= i < j < init.len() implies init[i] != init[j] by {
                assert(init[i] == pairs[i] && init[j] == pairs[j]);
            }
        }
        lemma_members_of_distinct(init, role);
        let last = pairs.last();
        if last.0 == role {
            lemma_members_of_contains(init, role, last.1);
            if init.contains((role, last.1)) {
                let i = choose|i: int| 0 <= i < init.len() && init[i] == (role, last.1);
                assert(pairs[i] == pairs[pairs.len() - 1]);
            }
            let rest = members_of(init, role);
            assert forall|i: int, j: int|
                0 <= i < j < rest.push(last.1).len() implies rest.push(last.1)[i] != rest.push(
                last.1,
            )[j] by {
                if j == rest.len() {
                    assert(rest[i] != last.1) by {
                        if rest[i] == last.1 {
                            assert(rest.contains(last.1));
                        }
                    }
                }
            }
        }
    }
}

/// The member list of a role names exactly the accounts that hold it, each
/// once.
pub proof fn lemma_role_members_exact(ac: AccessControl, role: Seq<u8>, account: Seq<u8>)
    requires
        ac.wf(),
    ensures
        members_of(ac.roles.pairs(), role).contains(account) <==> ac.holds(role, account),
        members_of(ac.roles.pairs(), role).no_duplicates(),
{
    lemma_members_of_contains(ac.roles.pairs(), role, account);
    lemma_members_of_distinct(ac.roles.pairs(), role);
}

/// Granting a pair that was not granted and then revoking it leaves the
/// grants as they were.
pub proof fn lemma_grant_then_revoke(pairs: Seq<(Seq<u8>, Seq<u8>)>, p: (Seq<u8>, Seq<u8>))
    requires
        !pairs.contains(p),
    ensures
        without_grant(with_grant(pairs, p), p) == pairs,
{
    let g = pairs.push(p);
    assert(g[pairs.len() as int] == p);
    assert(g.contains(p));
    let i = g.index_of(p);
    assert(0 <= i < g.len() && g[i] == p);
    if i < pairs.len() {
        assert(pairs[i] == p);
    }
    assert(g.remove(pairs.len() as int) =~= pairs);
}

/// Revoking a granted pair and then granting it again leaves the same pairs
/// granted (the pair moves to the end of the grant order).
pub proof fn lemma_revoke_then_grant(pairs: Seq<(Seq<u8>, Seq<u8>)>, p: (Seq<u8>, Seq<u8>), q: (
    Seq<u8>,
    Seq<u8>,
))
    requires
        pairs.no_duplicates(),
        pairs.contains(p),
    ensures
        with_grant(without_grant(pairs, p), p).contains(q) <==> pairs.contains(q),
{
    let i = pairs.index_of(p);
    let r = pairs.remove(i);
    assert(!r.contains(p)) by {
        if r.contains(p) {
            let j = choose|j: int| 0 <= j < r.len() && r[j] == p;
            if j < i {
                assert(pairs[j] == pairs[i]);
            } else {
                assert(pairs[j + 1] == pairs[i]);
            }
        }
    }
    let w = r.push(p);
    if pairs.contains(q) {
        let j = choose|j: int| 0 <= j < pairs.len() && pairs[j] == q;
        if j < i {
            assert(w[j] == q);
        } else if j > i {
            assert(w[j - 1] == q);
        } else {
            assert(w[r.len() as int] == q);
        }
    }
    if w.contains(q) {
        let j = choose|j: int| 0 <= j < w.len() && w[j] == q;
        if j == r.len() {
            assert(pairs[i] == q);
        } else if j < i {
            assert(pairs[j] == q);
        } else {
            assert(pairs[j + 1] == q);
        }
    }
}

impl Roles {
    /// The granted (role, account) pairs, in grant order.
    pub open spec fn pairs(&self) -> Seq<(Seq<u8>, Seq<u8>)> {
        self.grants@.map_values(|g: RoleGrant| (g.role@, g.account@))
    }

    /// Whether `account` holds `role`.
    pub open spec fn holds(&self, role: Seq<u8>, account: Seq<u8>) -> bool {
        self.pairs().contains((role, account))
    }

    /// The admin address, as a mathematical value.
    pub open spec fn admin_view(&self) -> Option<Seq<u8>> {
        opt_view(self.admin)
    }

    fn find_grant(&self, role: &Symbol, account: &Address) -> (r: Option<usize>)
        ensures
            r is Some <==> self.holds(role@, account@),
            r matches Some(i) ==> i < self.pairs().len() && self.pairs()[i as int] == (
                role@,
                account@,
            ),
    {
        let mut i: usize = 0;
        while i < self.grants.len()
            invariant
                i <= self.grants@.len(),
                forall|j: int| 0 <= j < i ==> #[trigger] self.pairs()[j] != (role@, account@),
            decreases self.grants.len() - i,
        {
            let g = &self.grants[i];
            if bytes_eq(&g.role, role) && bytes_eq(&g.account, account) {
                assert(self.pairs()[i as int] == (role@, account@));
                return Some(i);
            }
            assert(self.pairs()[i as int] == (g.role@, g.account@));
            i = i + 1;
        }
        None
    }

    /// Whether `account` holds `role`.
    pub fn has_role(&self, role: &Symbol, account: &Address) -> (b: bool)
        ensures
            b == self.holds(role@, account@),
    {
        self.find_grant(role, account).is_some()
    }

    /// Grants `role` to `account` unless it already holds it.
    pub fn grant_role_internal(&mut self, role: Symbol, account: Address)
        requires
            old(self).pairs().no_duplicates(),
        ensures
            final(self).pairs().no_duplicates(),
            final(self).admin == old(self).admin,
            final(self).pairs() == with_grant(old(self).pairs(), (role@, account@)),
            final(self).holds(role@, account@),
            forall|r: Seq<u8>, a: Seq<u8>|
                (r, a) != (role@, account@) ==> (#[trigger] final(self).holds(r, a) == old(self).holds(r, a)),
    {
        if self.find_grant(&role, &account).is_none() {
            let ghost old_pairs = self.pairs();
            let ghost pair = (role@, account@);
            self.grants.push(RoleGrant { role, account });
            assert(self.pairs() =~= old_pairs.push(pair));
            assert(self.pairs()[old_pairs.len() as int] == pair);
            assert forall|r: Seq<u8>, a: Seq<u8>|
                (r, a) != pair implies (#[trigger] self.holds(r, a) == old_pairs.contains(
                    (r, a),
                )) by {
                if old_pairs.contains((r, a)) {
                    let j = choose|j: int| 0 <= j < old_pairs.len() && old_pairs[j] == (r, a);
                    assert(self.pairs()[j] == (r, a));
                }
                if self.holds(r, a) {
                    let j = choose|j: int|
                        0 <= j < self.pairs().len() && self.pairs()[j] == (r, a);
                    assert(old_pairs[j] == (r, a));
                }
            }
        }
    }

    /// Takes `role` away from `account` if it holds it.
    pub fn revoke_role_internal(&mut self, role: &Symbol, account: &Address)
        requires
            old(self).pairs().no_duplicates(),
        ensures
            final(self).pairs().no_duplicates(),
            final(self).admin == old(self).admin,
            !final(self).holds(role@, account@),
            final(self).pairs() == without_grant(old(self).pairs(), (role@, account@)),
            forall|r: Seq<u8>, a: Seq<u8>|
                (r, a) != (role@, account@) ==> (#[trigger] final(self).holds(r, a) == old(self).holds(r, a)),
    {
        match self.find_grant(role, account) {
            Some(i) => {
                let ghost old_pairs = self.pairs();
                let ghost pair = (role@, account@);
                self.grants.remove(i);
                assert(self.pairs() =~= old_pairs.remove(i as int));
                assert(old_pairs.index_of(pair) == i as int) by {
                    let j = old_pairs.index_of(pair);
                    assert(old_pairs[j] == pair);
                }
                assert forall|r: Seq<u8>, a: Seq<u8>|
                    (r, a) != pair implies (#[trigger] self.holds(r, a) == old_pairs.contains(
                        (r, a),
                    )) by {
                    if old_pairs.contains((r, a)) {
                        let j = choose|j: int| 0 <= j < old_pairs.len() && old_pairs[j] == (r, a);
                        assert(j != i);
                        if j < i {
                            assert(self.pairs()[j] == (r, a));
                        } else {
                            assert(self.pairs()[j - 1] == (r, a));
                        }
                    }
                    if self.holds(r, a) {
                        let j = choose|j: int|
                            0 <= j < self.pairs().len() && self.pairs()[j] == (r, a);
                        if j < i {
                            assert(old_pairs[j] == (r, a));
                        } else {
                            assert(old_pairs[j + 1] == (r, a));
                        }
                    }
                }
                proof {
                    if self.holds(role@, account@) {
                        let j = choose|j: int|
                            0 <= j < self.pairs().len() && self.pairs()[j] == pair;
                        if j < i {
                            assert(old_pairs[j] == pair);
                        } else {
                            assert(old_pairs[j + 1] == pair);
                        }
                    }
                }
            },
            None => {},
        }
    }

    /// The accounts holding `role`, in grant order.
    pub fn get_role_members(&self, role: &Symbol) -> (members: Vec<Address>)
        ensures
            seq_view(members@) == members_of(self.pairs(), role@),
    {
        let mut members: Vec<Address> = Vec::new();
        let mut i: usize = 0;
        while i < self.grants.len()
            invariant
                i <= self.grants@.len(),
                seq_view(members@) == members_of(self.pairs().take(i as int), role@),
            decreases self.grants.len() - i,
        {
            let g = &self.grants[i];
            let ghost prev = members@;
            assert(self.pairs().take(i as int + 1).drop_last() =~= self.pairs().take(i as int));
            assert(self.pairs()[i as int] == (g.role@, g.account@));
            if bytes_eq(&g.role, role) {
                members.push(copy_bytes(&g.account));
                assert(seq_view(members@) =~= seq_view(prev).push(g.account@));
            }
            i = i + 1;
        }
        assert(self.pairs().take(self.grants@.len() as int) =~= self.pairs());
        members
    }
}

/// What `revoke_role` did.
#[derive(Clone, Copy, Debug, PartialEq, Eq, Structural)]
pub enum RevokeOutcome {
    /// A critical role: the revocation waits for the cooldown.
    Pending,
    /// The role was taken away at once.
    Revoked,
}

/// The roles and admin after carrying out `action`, or the error that stops it.
pub open spec fn apply_action(
    pairs: Seq<(Seq<u8>, Seq<u8>)>,
    admin: Option<Seq<u8>>,
    action: AdminAction,
) -> Result<(Seq<(Seq<u8>, Seq<u8>)>, Option<Seq<u8>>), AccessControlError> {
    match action {
        AdminAction::GrantRole(role, account) => {
            if pairs.contains((role@, account@)) {
                Err(AccessControlError::RoleAlreadyGranted)
            } else {
                Ok((pairs.push((role@, account@)), admin))
            }
        },
        AdminAction::RevokeRole(role, account) | AdminAction::EmergencyRevokeRole(role, account) => {
            if !pairs.contains((role@, account@)) {
                Err(AccessControlError::RoleNotGranted)
            } else {
                Ok((without_grant(pairs, (role@, account@)), admin))
            }
        },
        AdminAction::TransferAdmin(new_admin) => {
            Ok(
                (
                    with_grant(
                        without_grant(pairs, (admin_role(), admin->0)),
                        (admin_role(), new_admin@),
                    ),
                    Some(new_admin@),
                ),
            )
        },
        AdminAction::SetGlobalPause(_, _) | AdminAction::AllowToken(_) => Ok((pairs, admin)),
    }
}

impl AccessControl {
    /// The store invariant: no pair is granted twice, no two pending
    /// revocations or proposals share a key, and no signer approves a
    /// proposal twice.
    pub open spec fn wf(&self) -> bool {
        &&& self.roles.pairs().no_duplicates()
        &&& unique_keys(self.revocations@)
        &&& unique_keys(self.multisig.proposals@)
        &&& forall|n: u64|
            self.proposals().contains_key(n) ==> seq_view(
                #[trigger] self.proposals()[n].approvals@,
            ).no_duplicates()
    }

    /// Whether `account` holds `role`.
    pub open spec fn holds(&self, role: Seq<u8>, account: Seq<u8>) -> bool {
        self.roles.holds(role, account)
    }

    /// Whether `account` holds the administrator role.
    pub open spec fn is_admin(&self, account: Seq<u8>) -> bool {
        self.holds(admin_role(), account)
    }

    /// Pending revocations by (role, account).
    pub open spec fn pending_revocations(&self) -> Map<(Seq<u8>, Seq<u8>), PendingRevocation> {
        as_map(self.revocations@)
    }

    /// Open proposals by nonce.
    pub open spec fn proposals(&self) -> Map<u64, AdminProposal> {
        as_map(self.multisig.proposals@)
    }

    /// The signers allowed to propose and vote (none until configured).
    pub open spec fn signers(&self) -> Seq<Seq<u8>> {
        match self.multisig.config {
            Some(c) => seq_view(c.1@),
            None => Seq::empty(),
        }
    }

    /// The number of approvals a proposal needs (one until configured).
    pub open spec fn threshold(&self) -> u32 {
        match self.multisig.config {
            Some(c) => c.0,
            None => 1,
        }
    }

    /// The nonce the next proposal receives.
    pub open spec fn next_nonce(&self) -> u64 {
        match self.multisig.next_nonce {
            Some(n) => n,
            None => 0,
        }
    }

    /// The proposed admin and the time of the proposal, if a transfer is pending.
    pub open spec fn pending_transfer(&self) -> Option<(Seq<u8>, u64)> {
        match self.transfer.pending {
            Some(p) => Some((p.0@, p.1)),
            None => None,
        }
    }

    /// The recovery key, if set.
    pub open spec fn recovery_key(&self) -> Option<Seq<u8>> {
        opt_view(self.transfer.recovery_key)
    }

    /// The proposed admin of the pending transfer, if any.
    pub open spec fn proposed_admin(&self) -> Option<Seq<u8>> {
        match self.transfer.pending {
            Some(p) => Some(p.0@),
            None => None,
        }
    }

    /// The pending transfer was started by the recovery key and its lock-in
    /// (counted from the time it was started) has not ended at `now`.
    pub open spec fn transfer_locked(&self, now: u64) -> bool {
        &&& self.transfer.by_recovery
        &&& self.transfer.pending is Some
        &&& now < self.transfer_proposed_at() + match self.transfer.lock_in {
            Some(l) => l,
            None => 0,
        }
    }

    /// When the pending transfer was started (zero if none is pending).
    pub open spec fn transfer_proposed_at(&self) -> u64 {
        match self.transfer.pending {
            Some(p) => p.1,
            None => 0,
        }
    }

    /// Nothing is stored: no admin, no grants, no pending revocation, no
    /// admin transfer or recovery key, no multi-signature configuration,
    /// nonce or proposal.
    pub open spec fn is_fresh(&self) -> bool {
        &&& self.roles.admin is None
        &&& self.roles.pairs() == Seq::<(Seq<u8>, Seq<u8>)>::empty()
        &&& self.pending_revocations() == Map::<(Seq<u8>, Seq<u8>), PendingRevocation>::empty()
        &&& self.transfer.pending is None
        &&& self.transfer.lock_in is None
        &&& self.transfer.recovery_key is None
        &&& !self.transfer.by_recovery
        &&& self.multisig.config is None
        &&& self.multisig.next_nonce is None
        &&& self.proposals() == Map::<u64, AdminProposal>::empty()
    }

    /// Access control with nothing stored yet.
    pub fn new() -> (ac: Self)
        ensures
            ac.wf(),
            ac.is_fresh(),
            ac.roles.admin is None,
            ac.roles.pairs() == Seq::<(Seq<u8>, Seq<u8>)>::empty(),
            ac.pending_revocations() == Map::<(Seq<u8>, Seq<u8>), PendingRevocation>::empty(),
            ac.transfer.pending is None,
            ac.transfer.lock_in is None,
            ac.transfer.recovery_key is None,
            ac.multisig.config is None,
            ac.multisig.next_nonce is None,
            ac.proposals() == Map::<u64, AdminProposal>::empty(),
    {
        let ac = AccessControl {
            roles: Roles { admin: None, grants: Vec::new() },
            revocations: Vec::new(),
            transfer: AdminTransfer { pending: None, lock_in: None, recovery_key: None, by_recovery: false },
            multisig: Multisig { config: None, next_nonce: None, proposals: Vec::new() },
        };
        assert(ac.roles.pairs() =~= Seq::<(Seq<u8>, Seq<u8>)>::empty());
        assert(ac.pending_revocations() =~= Map::<(Seq<u8>, Seq<u8>), PendingRevocation>::empty());
        assert(ac.proposals() =~= Map::<u64, AdminProposal>::empty());
        ac
    }

    /// Records `admin` as the administrator and grants it the admin role; sets
    /// the multi-signature configuration to threshold one with `admin` as the
    /// only signer, the next proposal nonce to zero and the admin transfer
    /// lock-in to seven days.
    pub fn initialize(&mut self, admin: Address)
        requires
            old(self).wf(),
        ensures
            final(self).wf(),
            final(self).roles.admin_view() == Some(admin@),
            final(self).roles.pairs() == with_grant(old(self).roles.pairs(), (admin_role(), admin@)),
            final(self).threshold() == 1,
            final(self).signers() == seq![admin@],
            final(self).multisig.next_nonce == Some(0u64),
            final(self).multisig.proposals == old(self).multisig.proposals,
            final(self).transfer.lock_in == Some(DEFAULT_ADMIN_TRANSFER_LOCK_IN),
            final(self).transfer.pending == old(self).transfer.pending,
            final(self).transfer.by_recovery == old(self).transfer.by_recovery,
            final(self).transfer.recovery_key == old(self).transfer.recovery_key,
            final(self).revocations == old(self).revocations,
    {
        self.roles.admin = Some(copy_bytes(&admin));
        let signer = copy_bytes(&admin);
        self.roles.grant_role_internal(role_admin(), admin);
        let signers = vec![signer];
        assert(seq_view(signers@) =~= seq![signer@]);
        self.multisig.config = Some((1u32, signers));
        self.multisig.next_nonce = Some(0u64);
        self.transfer.lock_in = Some(DEFAULT_ADMIN_TRANSFER_LOCK_IN);
    }

    /// `initialize`, then records `recovery_key` as the recovery key.
    pub fn initialize_with_recovery(&mut self, admin: Address, recovery_key: Address)
        requires
            old(self).wf(),
        ensures
            final(self).wf(),
            final(self).roles.admin_view() == Some(admin@),
            final(self).roles.pairs() == with_grant(old(self).roles.pairs(), (admin_role(), admin@)),
            final(self).threshold() == 1,
            final(self).signers() == seq![admin@],
            final(self).multisig.next_nonce == Some(0u64),
            final(self).multisig.proposals == old(self).multisig.proposals,
            final(self).transfer.lock_in == Some(DEFAULT_ADMIN_TRANSFER_LOCK_IN),
            final(self).transfer.pending == old(self).transfer.pending,
            final(self).transfer.by_recovery == old(self).transfer.by_recovery,
            final(self).recovery_key() == Some(recovery_key@),
            final(self).revocations == old(self).revocations,
    {
        self.initialize(admin);
        self.transfer.recovery_key = Some(recovery_key);
    }

    /// Whether `account` holds `role`.
    pub fn has_role(&self, role: &Symbol, account: &Address) -> (b: bool)
        ensures
            b == self.holds(role@, account@),
    {
        self.roles.has_role(role, account)
    }

    /// `Ok` when `account` holds `role`, `Unauthorized` otherwise.
    pub fn require_role(&self, role: &Symbol, account: &Address) -> (r: Result<
        (),
        AccessControlError,
    >)
        ensures
            r == (if self.holds(role@, account@) {
                Ok(())
            } else {
                Err(AccessControlError::Unauthorized)
            }),
    {
        if !self.has_role(role, account) {
            return Err(AccessControlError::Unauthorized);
        }
        Ok(())
    }

    /// The accounts holding `role`, in the order the role was granted.
    pub fn get_role_members(&self, role: &Symbol) -> (members: Vec<Address>)
        ensures
            seq_view(members@) == members_of(self.roles.pairs(), role@),
    {
        self.roles.get_role_members(role)
    }

    /// The administrator address, if one was recorded.
    pub fn get_admin(&self) -> (admin: Option<Address>)
        ensures
            opt_view(admin) == self.roles.admin_view(),
    {
        copy_opt_bytes(&self.roles.admin)
    }

    /// The admin grants `role` to `account`.
    pub fn grant_role(&mut self, admin: &Address, role: Symbol, account: Address) -> (r: Result<
        (),
        AccessControlError,
    >)
        requires
            old(self).wf(),
        ensures
            final(self).wf(),
            r is Err ==> *final(self) == *old(self),
            !old(self).is_admin(admin@) ==> r == Err::<(), _>(AccessControlError::Unauthorized),
            old(self).is_admin(admin@) && old(self).holds(role@, account@) ==> r == Err::<(), _>(
                AccessControlError::RoleAlreadyGranted,
            ),
            old(self).is_admin(admin@) && !old(self).holds(role@, account@) ==> {
                &&& r is Ok
                &&& final(self).roles.pairs() == old(self).roles.pairs().push((role@, account@))
                &&& final(self).roles.admin == old(self).roles.admin
                &&& final(self).revocations == old(self).revocations
                &&& final(self).transfer == old(self).transfer
                &&& final(self).multisig == old(self).multisig
            },
    {
        if !self.has_role(&role_admin(), admin) {
            return Err(AccessControlError::Unauthorized);
        }
        if self.has_role(&role, &account) {
            return Err(AccessControlError::RoleAlreadyGranted);
        }
        self.roles.grant_role_internal(role, account);
        Ok(())
    }

    fn is_critical(role: &Symbol) -> (b: bool)
        ensures
            b == is_critical_role(role@),
    {
        bytes_eq(role, &role_oracle()) || bytes_eq(role, &role_settlement_operator())
    }

    /// The admin revokes `role` from `account`: at once for ordinary roles; for
    /// the oracle and settlement-operator roles a revocation is recorded that
    /// can be finalized after the cooldown.
    pub fn revoke_role(
        &mut self,
        admin: &Address,
        role: Symbol,
        account: Address,
        now: u64,
    ) -> (r: Result<RevokeOutcome, AccessControlError>)
        requires
            old(self).wf(),
        ensures
            final(self).wf(),
            r is Err ==> *final(self) == *old(self),
            !old(self).is_admin(admin@) ==> r == Err::<RevokeOutcome, _>(
                AccessControlError::Unauthorized,
            ),
            old(self).is_admin(admin@) && !old(self).holds(role@, account@) ==> r == Err::<
                RevokeOutcome,
                _,
            >(AccessControlError::RoleNotGranted),
            old(self).is_admin(admin@) && old(self).holds(role@, account@) && is_critical_role(
                role@,
            ) ==> {
                &&& r == Ok::<_, AccessControlError>(RevokeOutcome::Pending)
                &&& final(self).pending_revocations() == old(self).pending_revocations().insert(
                    (role@, account@),
                    PendingRevocation { role: role, account: account, created_at: now },
                )
                &&& final(self).roles == old(self).roles
                &&& final(self).transfer == old(self).transfer
                &&& final(self).multisig == old(self).multisig
            },
            old(self).is_admin(admin@) && old(self).holds(role@, account@) && !is_critical_role(
                role@,
            ) ==> {
                &&& r == Ok::<_, AccessControlError>(RevokeOutcome::Revoked)
                &&& final(self).roles.pairs() == without_grant(
                    old(self).roles.pairs(),
                    (role@, account@),
                )
                &&& final(self).roles.admin == old(self).roles.admin
                &&& final(self).revocations == old(self).revocations
                &&& final(self).transfer == old(self).transfer
                &&& final(self).multisig == old(self).multisig
            },
    {
        if !self.has_role(&role_admin(), admin) {
            return Err(AccessControlError::Unauthorized);
        }
        if !self.has_role(&role, &account) {
            return Err(AccessControlError::RoleNotGranted);
        }
        if Self::is_critical(&role) {
            let pending = PendingRevocation { role, account, created_at: now };
            put(&mut self.revocations, pending);
            Ok(RevokeOutcome::Pending)
        } else {
            self.roles.revoke_role_internal(&role, &account);
            Ok(RevokeOutcome::Revoked)
        }
    }

    fn find_pending(&self, role: &Symbol, account: &Address) -> (r: Option<usize>)
        requires
            self.wf(),
        ensures
            r is Some <==> self.pending_revocations().contains_key((role@, account@)),
            r matches Some(i) ==> i < self.revocations@.len() && self.revocations@[i as int]
                == self.pending_revocations()[(role@, account@)],
    {
        let key = (copy_bytes(role), copy_bytes(account));
        find(&self.revocations, &key)
    }

    /// The pending revocation of `role` from `account`, if any.
    pub fn get_pending_revocation(&self, role: &Symbol, account: &Address) -> (r: Option<
        &PendingRevocation,
    >)
        requires
            self.wf(),
        ensures
            r is Some <==> self.pending_revocations().contains_key((role@, account@)),
            r matches Some(p) ==> *p == self.pending_revocations()[(role@, account@)],
    {
        match self.find_pending(role, account) {
            Some(i) => Some(&self.revocations[i]),
            None => None,
        }
    }

    /// The admin completes a pending revocation once the cooldown has passed.
    pub fn finalize_revocation(
        &mut self,
        admin: &Address,
        role: &Symbol,
        account: &Address,
        now: u64,
    ) -> (r: Result<(), AccessControlError>)
        requires
            old(self).wf(),
            old(self).pending_revocations().contains_key((role@, account@)) ==> old(self).pending_revocations()[(role@, account@)].created_at <= u64::MAX
                - REVOCATION_COOLDOWN_SECS,
        ensures
            final(self).wf(),
            r is Err ==> *final(self) == *old(self),
            ({
                let pend = old(self).pending_revocations();
                let key = (role@, account@);
                if !old(self).is_admin(admin@) {
                    r == Err::<(), _>(AccessControlError::Unauthorized)
                } else if !pend.contains_key(key) {
                    r == Err::<(), _>(AccessControlError::NoPendingRevocation)
                } else if now < pend[key].created_at + REVOCATION_COOLDOWN_SECS {
                    r == Err::<(), _>(AccessControlError::RevocationCooldownActive)
                } else if !old(self).holds(role@, account@) {
                    r == Err::<(), _>(AccessControlError::RoleNotGranted)
                } else {
                    &&& r is Ok
                    &&& final(self).roles.pairs() == without_grant(old(self).roles.pairs(), key)
                    &&& final(self).roles.admin == old(self).roles.admin
                    &&& final(self).pending_revocations() == pend.remove(key)
                    &&& final(self).transfer == old(self).transfer
                    &&& final(self).multisig == old(self).multisig
                }
            }),
    {
        if !self.has_role(&role_admin(), admin) {
            return Err(AccessControlError::Unauthorized);
        }
        let i = match self.find_pending(role, account) {
            Some(i) => i,
            None => {
                return Err(AccessControlError::NoPendingRevocation);
            },
        };
        if now < self.revocations[i].created_at + REVOCATION_COOLDOWN_SECS {
            return Err(AccessControlError::RevocationCooldownActive);
        }
        if !self.has_role(role, account) {
            return Err(AccessControlError::RoleNotGranted);
        }
        self.roles.revoke_role_internal(role, account);
        let key = (copy_bytes(role), copy_bytes(account));
        remove_key(&mut self.revocations, &key);
        Ok(())
    }

    /// The admin drops a pending revocation; the role stays granted.
    pub fn cancel_revocation(&mut self, admin: &Address, role: &Symbol, account: &Address) -> (r:
        Result<(), AccessControlError>)
        requires
            old(self).wf(),
        ensures
            final(self).wf(),
            r is Err ==> *final(self) == *old(self),
            !old(self).is_admin(admin@) ==> r == Err::<(), _>(AccessControlError::Unauthorized),
            old(self).is_admin(admin@) && !old(self).pending_revocations().contains_key(
                (role@, account@),
            ) ==> r == Err::<(), _>(AccessControlError::NoPendingRevocation),
            old(self).is_admin(admin@) && old(self).pending_revocations().contains_key(
                (role@, account@),
            ) ==> {
                &&& r is Ok
                &&& final(self).pending_revocations() == old(self).pending_revocations().remove(
                    (role@, account@),
                )
                &&& final(self).roles == old(self).roles
                &&& final(self).transfer == old(self).transfer
                &&& final(self).multisig == old(self).multisig
            },
    {
        if !self.has_role(&role_admin(), admin) {
            return Err(AccessControlError::Unauthorized);
        }
        if self.find_pending(role, account).is_none() {
            return Err(AccessControlError::NoPendingRevocation);
        }
        let key = (copy_bytes(role), copy_bytes(account));
        remove_key(&mut self.revocations, &key);
        Ok(())
    }

    /// The admin revokes `role` from `account` at once, bypassing the
    /// cooldown, and drops any pending revocation of it.
    pub fn emergency_revoke_role(&mut self, admin: &Address, role: &Symbol, account: &Address) -> (r:
        Result<(), AccessControlError>)
        requires
            old(self).wf(),
        ensures
            final(self).wf(),
            r is Err ==> *final(self) == *old(self),
            !old(self).is_admin(admin@) ==> r == Err::<(), _>(AccessControlError::Unauthorized),
            old(self).is_admin(admin@) && !old(self).holds(role@, account@) ==> r == Err::<(), _>(
                AccessControlError::RoleNotGranted,
            ),
            old(self).is_admin(admin@) && old(self).holds(role@, account@) ==> {
                &&& r is Ok
                &&& final(self).roles.pairs() == without_grant(
                    old(self).roles.pairs(),
                    (role@, account@),
                )
                &&& final(self).roles.admin == old(self).roles.admin
                &&& final(self).pending_revocations() == old(self).pending_revocations().remove(
                    (role@, account@),
                )
                &&& final(self).transfer == old(self).transfer
                &&& final(self).multisig == old(self).multisig
            },
    {
        if !self.has_role(&role_admin(), admin) {
            return Err(AccessControlError::Unauthorized);
        }
        if !self.has_role(role, account) {
            return Err(AccessControlError::RoleNotGranted);
        }
        self.roles.revoke_role_internal(role, account);
        let key = (copy_bytes(role), copy_bytes(account));
        remove_key(&mut self.revocations, &key);
        Ok(())
    }

    /// `account` gives up `role`. The admin role cannot be renounced; giving
    /// up a role one does not hold changes nothing. The result tells whether a
    /// role was taken away.
    pub fn renounce_role(&mut self, account: &Address, role: &Symbol) -> (r: Result<
        bool,
        AccessControlError,
    >)
        requires
            old(self).wf(),
        ensures
            final(self).wf(),
            r matches Ok(false) || r is Err ==> *final(self) == *old(self),
            role@ == admin_role() ==> r == Err::<bool, _>(AccessControlError::CannotRenounceAdmin),
            role@ != admin_role() && !old(self).holds(role@, account@) ==> r == Ok::<
                bool,
                AccessControlError,
            >(false),
            role@ != admin_role() && old(self).holds(role@, account@) ==> {
                &&& r == Ok::<bool, AccessControlError>(true)
                &&& final(self).roles.pairs() == without_grant(
                    old(self).roles.pairs(),
                    (role@, account@),
                )
                &&& final(self).roles.admin == old(self).roles.admin
                &&& final(self).revocations == old(self).revocations
                &&& final(self).transfer == old(self).transfer
                &&& final(self).multisig == old(self).multisig
            },
    {
        if bytes_eq(role, &role_admin()) {
            return Err(AccessControlError::CannotRenounceAdmin);
        }
        if !self.has_role(role, account) {
            return Ok(false);
        }
        self.roles.revoke_role_internal(role, account);
        Ok(true)
    }
}

impl AccessControl {
    /// The admin proposes `new_admin` as the next administrator; the transfer
    /// completes when `new_admin` claims it. Only one transfer can be pending.
    pub fn propose_admin(&mut self, current_admin: &Address, new_admin: Address, now: u64) -> (r:
        Result<(), AccessControlError>)
        requires
            old(self).wf(),
        ensures
            final(self).wf(),
            r is Err ==> *final(self) == *old(self),
            !old(self).is_admin(current_admin@) ==> r == Err::<(), _>(
                AccessControlError::Unauthorized,
            ),
            old(self).is_admin(current_admin@) && old(self).transfer.pending is Some ==> r == Err::<
                (),
                _,
            >(AccessControlError::PendingAdminTransfer),
            old(self).is_admin(current_admin@) && old(self).transfer.pending is None ==> {
                &&& r is Ok
                &&& final(self).transfer.pending == Some((new_admin, now))
                &&& !final(self).transfer.by_recovery
                &&& final(self).transfer.lock_in == old(self).transfer.lock_in
                &&& final(self).transfer.recovery_key == old(self).transfer.recovery_key
                &&& final(self).roles == old(self).roles
                &&& final(self).revocations == old(self).revocations
                &&& final(self).multisig == old(self).multisig
            },
    {
        if !self.has_role(&role_admin(), current_admin) {
            return Err(AccessControlError::Unauthorized);
        }
        if self.transfer.pending.is_some() {
            return Err(AccessControlError::PendingAdminTransfer);
        }
        self.transfer.pending = Some((new_admin, now));
        self.transfer.by_recovery = false;
        Ok(())
    }

    /// Same as `propose_admin`.
    pub fn transfer_admin(&mut self, current_admin: &Address, new_admin: Address, now: u64) -> (r:
        Result<(), AccessControlError>)
        requires
            old(self).wf(),
        ensures
            final(self).wf(),
            r is Err ==> *final(self) == *old(self),
            !old(self).is_admin(current_admin@) ==> r == Err::<(), _>(
                AccessControlError::Unauthorized,
            ),
            old(self).is_admin(current_admin@) && old(self).transfer.pending is Some ==> r == Err::<
                (),
                _,
            >(AccessControlError::PendingAdminTransfer),
            old(self).is_admin(current_admin@) && old(self).transfer.pending is None ==> {
                &&& r is Ok
                &&& final(self).transfer.pending == Some((new_admin, now))
                &&& !final(self).transfer.by_recovery
                &&& final(self).transfer.lock_in == old(self).transfer.lock_in
                &&& final(self).transfer.recovery_key == old(self).transfer.recovery_key
                &&& final(self).roles == old(self).roles
                &&& final(self).revocations == old(self).revocations
                &&& final(self).multisig == old(self).multisig
            },
    {
        self.propose_admin(current_admin, new_admin, now)
    }

    /// The proposed admin completes a pending transfer at `now`: the admin
    /// role moves from the old admin to `new_admin`, which becomes the
    /// recorded admin. A transfer started by the recovery key can only be
    /// claimed once its lock-in has passed. Returns the old admin.
    pub fn claim_admin(&mut self, new_admin: &Address, now: u64) -> (r: Result<Address, AccessControlError>)
        requires
            old(self).wf(),
            old(self).proposed_admin() == Some(new_admin@) ==> old(self).roles.admin is Some,
        ensures
            final(self).wf(),
            r is Err ==> *final(self) == *old(self),
            old(self).transfer.pending is None ==> r matches Err(
                AccessControlError::PendingAdminTransfer,
            ),
            old(self).proposed_admin() is Some && old(self).proposed_admin() != Some(new_admin@)
                ==> r matches Err(AccessControlError::Unauthorized),
            old(self).proposed_admin() == Some(new_admin@) && old(self).transfer_locked(now) ==> r
                matches Err(AccessControlError::TransferLockInActive),
            old(self).proposed_admin() == Some(new_admin@) && !old(self).transfer_locked(now) ==> {
                &&& !final(self).transfer.by_recovery
                &&& r matches Ok(old_admin) && old(self).roles.admin_view() == Some(old_admin@)
                &&& final(self).roles.pairs() == with_grant(
                    without_grant(
                        old(self).roles.pairs(),
                        (admin_role(), old(self).roles.admin_view()->0),
                    ),
                    (admin_role(), new_admin@),
                )
                &&& final(self).roles.admin_view() == Some(new_admin@)
                &&& final(self).transfer.pending is None
                &&& final(self).transfer.lock_in == old(self).transfer.lock_in
                &&& final(self).transfer.recovery_key == old(self).transfer.recovery_key
                &&& final(self).revocations == old(self).revocations
                &&& final(self).multisig == old(self).multisig
            },
    {
        let matches = match &self.transfer.pending {
            None => {
                return Err(AccessControlError::PendingAdminTransfer);
            },
            Some(p) => bytes_eq(&p.0, new_admin),
        };
        if !matches {
            return Err(AccessControlError::Unauthorized);
        }
        if self.transfer.by_recovery {
            let proposed_at: u64 = match &self.transfer.pending {
                Some(p) => p.1,
                None => 0,
            };
            let lock: u64 = match self.transfer.lock_in {
                Some(l) => l,
                None => 0,
            };
            let locked = match proposed_at.checked_add(lock) {
                Some(t) => now < t,
                None => true,
            };
            if locked {
                return Err(AccessControlError::TransferLockInActive);
            }
        }
        let old_admin = copy_bytes(self.roles.admin.as_ref().unwrap());
        self.roles.revoke_role_internal(&role_admin(), &old_admin);
        self.roles.grant_role_internal(role_admin(), copy_bytes(new_admin));
        self.roles.admin = Some(copy_bytes(new_admin));
        self.transfer.pending = None;
        self.transfer.by_recovery = false;
        Ok(old_admin)
    }

    /// Same as `claim_admin`.
    pub fn accept_admin_transfer(&mut self, new_admin: &Address, now: u64) -> (r: Result<
        Address,
        AccessControlError,
    >)
        requires
            old(self).wf(),
            old(self).proposed_admin() == Some(new_admin@) ==> old(self).roles.admin is Some,
        ensures
            final(self).wf(),
            r is Err ==> *final(self) == *old(self),
            old(self).transfer.pending is None ==> r matches Err(
                AccessControlError::PendingAdminTransfer,
            ),
            old(self).proposed_admin() is Some && old(self).proposed_admin() != Some(new_admin@)
                ==> r matches Err(AccessControlError::Unauthorized),
            old(self).proposed_admin() == Some(new_admin@) && old(self).transfer_locked(now) ==> r
                matches Err(AccessControlError::TransferLockInActive),
            old(self).proposed_admin() == Some(new_admin@) && !old(self).transfer_locked(now) ==> {
                &&& !final(self).transfer.by_recovery
                &&& r matches Ok(old_admin) && old(self).roles.admin_view() == Some(old_admin@)
                &&& final(self).roles.pairs() == with_grant(
                    without_grant(
                        old(self).roles.pairs(),
                        (admin_role(), old(self).roles.admin_view()->0),
                    ),
                    (admin_role(), new_admin@),
                )
                &&& final(self).roles.admin_view() == Some(new_admin@)
                &&& final(self).transfer.pending is None
                &&& final(self).transfer.lock_in == old(self).transfer.lock_in
                &&& final(self).transfer.recovery_key == old(self).transfer.recovery_key
                &&& final(self).revocations == old(self).revocations
                &&& final(self).multisig == old(self).multisig
            },
    {
        self.claim_admin(new_admin, now)
    }

    /// The admin drops the pending admin transfer.
    pub fn cancel_admin_transfer(&mut self, current_admin: &Address) -> (r: Result<
        (),
        AccessControlError,
    >)
        requires
            old(self).wf(),
        ensures
            final(self).wf(),
            r is Err ==> *final(self) == *old(self),
            !old(self).is_admin(current_admin@) ==> r == Err::<(), _>(
                AccessControlError::Unauthorized,
            ),
            old(self).is_admin(current_admin@) && old(self).transfer.pending is None ==> r == Err::<
                (),
                _,
            >(AccessControlError::PendingAdminTransfer),
            old(self).is_admin(current_admin@) && old(self).transfer.pending is Some ==> {
                &&& r is Ok
                &&& final(self).transfer.pending is None
                &&& !final(self).transfer.by_recovery
                &&& final(self).transfer.lock_in == old(self).transfer.lock_in
                &&& final(self).transfer.recovery_key == old(self).transfer.recovery_key
                &&& final(self).roles == old(self).roles
                &&& final(self).revocations == old(self).revocations
                &&& final(self).multisig == old(self).multisig
            },
    {
        if !self.has_role(&role_admin(), current_admin) {
            return Err(AccessControlError::Unauthorized);
        }
        if self.transfer.pending.is_none() {
            return Err(AccessControlError::PendingAdminTransfer);
        }
        self.transfer.pending = None;
        self.transfer.by_recovery = false;
        Ok(())
    }

    /// The pending admin transfer (proposed admin, time proposed), if any.
    pub fn get_pending_admin_transfer(&self) -> (p: &Option<(Address, u64)>)
        ensures
            *p == self.transfer.pending,
    {
        &self.transfer.pending
    }

    /// The admin sets the recovery key.
    pub fn set_recovery_key(&mut self, admin: &Address, recovery_key: Address) -> (r: Result<
        (),
        AccessControlError,
    >)
        requires
            old(self).wf(),
        ensures
            final(self).wf(),
            r is Err ==> *final(self) == *old(self),
            !old(self).is_admin(admin@) ==> r == Err::<(), _>(AccessControlError::Unauthorized),
            old(self).is_admin(admin@) ==> {
                &&& r is Ok
                &&& final(self).transfer.recovery_key == Some(recovery_key)
                &&& final(self).transfer.pending == old(self).transfer.pending
                &&& final(self).transfer.by_recovery == old(self).transfer.by_recovery
                &&& final(self).transfer.lock_in == old(self).transfer.lock_in
                &&& final(self).roles == old(self).roles
                &&& final(self).revocations == old(self).revocations
                &&& final(self).multisig == old(self).multisig
            },
    {
        if !self.has_role(&role_admin(), admin) {
            return Err(AccessControlError::Unauthorized);
        }
        self.transfer.recovery_key = Some(recovery_key);
        Ok(())
    }

    /// The recovery key, if set.
    pub fn get_recovery_key(&self) -> (k: Option<Address>)
        ensures
            opt_view(k) == self.recovery_key(),
    {
        copy_opt_bytes(&self.transfer.recovery_key)
    }

    /// The recovery key proposes `new_admin`, replacing any pending transfer,
    /// and sets the transfer lock-in to thirty days.
    pub fn recovery_initiate_admin_transfer(
        &mut self,
        recovery_key: &Address,
        new_admin: Address,
        now: u64,
    ) -> (r: Result<(), AccessControlError>)
        requires
            old(self).wf(),
        ensures
            final(self).wf(),
            r is Err ==> *final(self) == *old(self),
            old(self).recovery_key() is None ==> r == Err::<(), _>(
                AccessControlError::RecoveryKeyNotSet,
            ),
            old(self).recovery_key() matches Some(k) && k != recovery_key@ ==> r == Err::<(), _>(
                AccessControlError::Unauthorized,
            ),
            old(self).recovery_key() == Some(recovery_key@) ==> {
                &&& r is Ok
                &&& final(self).transfer.pending == Some((new_admin, now))
                &&& final(self).transfer.lock_in == Some(RECOVERY_ADMIN_TRANSFER_LOCK_IN)
                &&& final(self).transfer.by_recovery
                &&& final(self).transfer.recovery_key == old(self).transfer.recovery_key
                &&& final(self).roles == old(self).roles
                &&& final(self).revocations == old(self).revocations
                &&& final(self).multisig == old(self).multisig
            },
    {
        let matches = match &self.transfer.recovery_key {
            None => {
                return Err(AccessControlError::RecoveryKeyNotSet);
            },
            Some(k) => bytes_eq(k, recovery_key),
        };
        if !matches {
            return Err(AccessControlError::Unauthorized);
        }
        self.transfer.pending = Some((new_admin, now));
        self.transfer.lock_in = Some(RECOVERY_ADMIN_TRANSFER_LOCK_IN);
        self.transfer.by_recovery = true;
        Ok(())
    }
}

impl AccessControl {
    /// The admin sets the approval threshold and the signer list; the
    /// threshold must be between one and the number of signers.
    pub fn set_multisig_config(&mut self, admin: &Address, threshold: u32, signers: Vec<Address>) -> (r:
        Result<(), AccessControlError>)
        requires
            old(self).wf(),
        ensures
            final(self).wf(),
            r is Err ==> *final(self) == *old(self),
            !old(self).is_admin(admin@) ==> r == Err::<(), _>(AccessControlError::Unauthorized),
            old(self).is_admin(admin@) && (threshold == 0 || threshold > signers@.len()) ==> r
                == Err::<(), _>(AccessControlError::InvalidAdmin),
            old(self).is_admin(admin@) && 0 < threshold <= signers@.len() ==> {
                &&& r is Ok
                &&& final(self).multisig.config == Some((threshold, signers))
                &&& final(self).multisig.next_nonce == old(self).multisig.next_nonce
                &&& final(self).multisig.proposals == old(self).multisig.proposals
                &&& final(self).roles == old(self).roles
                &&& final(self).revocations == old(self).revocations
                &&& final(self).transfer == old(self).transfer
            },
    {
        if !self.has_role(&role_admin(), admin) {
            return Err(AccessControlError::Unauthorized);
        }
        if threshold == 0 || threshold as usize > signers.len() {
            return Err(AccessControlError::InvalidAdmin);
        }
        self.multisig.config = Some((threshold, signers));
        Ok(())
    }

    /// The approval threshold and the signers (threshold one and no signers
    /// until configured).
    pub fn get_multisig_config(&self) -> (c: (u32, Vec<Address>))
        ensures
            c.0 == self.threshold(),
            seq_view(c.1@) == self.signers(),
    {
        match &self.multisig.config {
            Some(c) => (c.0, copy_bytes_list(&c.1)),
            None => {
                let empty: Vec<Address> = Vec::new();
                assert(seq_view(empty@) =~= Seq::<Seq<u8>>::empty());
                (1u32, empty)
            },
        }
    }

    fn is_signer(&self, account: &Address) -> (b: bool)
        ensures
            b == self.signers().contains(account@),
    {
        match &self.multisig.config {
            Some(c) => list_contains(&c.1, account),
            None => false,
        }
    }

    /// A signer opens a proposal for `action`, approved by the signer itself.
    /// It is stored under the next nonce, which is returned; the next nonce
    /// then moves up by one.
    pub fn create_proposal(&mut self, signer: &Address, action: AdminAction, now: u64) -> (r: Result<
        u64,
        AccessControlError,
    >)
        requires
            old(self).wf(),
            old(self).signers().contains(signer@) ==> old(self).next_nonce() < u64::MAX,
        ensures
            final(self).wf(),
            r is Err ==> *final(self) == *old(self),
            !old(self).signers().contains(signer@) ==> r == Err::<u64, _>(
                AccessControlError::Unauthorized,
            ),
            old(self).signers().contains(signer@) ==> {
                let nonce = old(self).next_nonce();
                &&& r == Ok::<u64, AccessControlError>(nonce)
                &&& final(self).proposals().dom() == old(self).proposals().dom().insert(nonce)
                &&& forall|n: u64|
                    n != nonce ==> #[trigger] final(self).proposals().get(n) == old(self).proposals().get(n)
                &&& final(self).proposals()[nonce].nonce == nonce
                &&& final(self).proposals()[nonce].action == action
                &&& seq_view(final(self).proposals()[nonce].approvals@) == seq![signer@]
                &&& final(self).proposals()[nonce].created_at == now
                &&& final(self).next_nonce() == nonce + 1
                &&& final(self).multisig.config == old(self).multisig.config
                &&& final(self).roles == old(self).roles
                &&& final(self).revocations == old(self).revocations
                &&& final(self).transfer == old(self).transfer
            },
    {
        if !self.is_signer(signer) {
            return Err(AccessControlError::Unauthorized);
        }
        let nonce: u64 = match self.multisig.next_nonce {
            Some(n) => n,
            None => 0,
        };
        let approvals = vec![copy_bytes(signer)];
        assert(seq_view(approvals@) =~= seq![signer@]);
        let proposal = AdminProposal { nonce, action, approvals, created_at: now };
        put(&mut self.multisig.proposals, proposal);
        self.multisig.next_nonce = Some(nonce + 1);
        Ok(nonce)
    }

    /// The proposal stored under `nonce`, if any.
    pub fn get_proposal(&self, nonce: u64) -> (p: Option<&AdminProposal>)
        requires
            self.wf(),
        ensures
            p is Some <==> self.proposals().contains_key(nonce),
            p matches Some(x) ==> *x == self.proposals()[nonce],
    {
        match find(&self.multisig.proposals, &nonce) {
            Some(i) => Some(&self.multisig.proposals[i]),
            None => None,
        }
    }

    /// A signer adds its approval to the proposal under `nonce`.
    pub fn vote_proposal(&mut self, signer: &Address, nonce: u64) -> (r: Result<
        (),
        AccessControlError,
    >)
        requires
            old(self).wf(),
        ensures
            final(self).wf(),
            r is Err ==> *final(self) == *old(self),
            !old(self).signers().contains(signer@) ==> r == Err::<(), _>(
                AccessControlError::Unauthorized,
            ),
            old(self).signers().contains(signer@) && !old(self).proposals().contains_key(nonce)
                ==> r == Err::<(), _>(AccessControlError::ProposalNotFound),
            old(self).signers().contains(signer@) && old(self).proposals().contains_key(nonce)
                && seq_view(old(self).proposals()[nonce].approvals@).contains(signer@) ==> r
                == Err::<(), _>(AccessControlError::ProposalAlreadyVoted),
            old(self).signers().contains(signer@) && old(self).proposals().contains_key(nonce)
                && !seq_view(old(self).proposals()[nonce].approvals@).contains(signer@) ==> {
                let before = old(self).proposals()[nonce];
                let after = final(self).proposals()[nonce];
                &&& r is Ok
                &&& final(self).proposals().dom() == old(self).proposals().dom()
                &&& forall|n: u64|
                    n != nonce ==> #[trigger] final(self).proposals().get(n) == old(self).proposals().get(n)
                &&& after.nonce == before.nonce
                &&& after.action == before.action
                &&& after.created_at == before.created_at
                &&& seq_view(after.approvals@) == seq_view(before.approvals@).push(signer@)
                &&& final(self).multisig.config == old(self).multisig.config
                &&& final(self).multisig.next_nonce == old(self).multisig.next_nonce
                &&& final(self).roles == old(self).roles
                &&& final(self).revocations == old(self).revocations
                &&& final(self).transfer == old(self).transfer
            },
    {
        if !self.is_signer(signer) {
            return Err(AccessControlError::Unauthorized);
        }
        let i = match find(&self.multisig.proposals, &nonce) {
            Some(i) => i,
            None => {
                return Err(AccessControlError::ProposalNotFound);
            },
        };
        if list_contains(&self.multisig.proposals[i].approvals, signer) {
            return Err(AccessControlError::ProposalAlreadyVoted);
        }
        let ghost before = self.multisig.proposals@[i as int];
        let mut proposal = self.multisig.proposals.remove(i);
        proof {
            lemma_remove_at(old(self).multisig.proposals@, i as int);
            lemma_map_from_lookups(
                old(self).multisig.proposals@,
                self.multisig.proposals@,
                nonce,
                None,
            );
        }
        proposal.approvals.push(copy_bytes(signer));
        assert(seq_view(proposal.approvals@) =~= seq_view(before.approvals@).push(signer@));
        put(&mut self.multisig.proposals, proposal);
        proof {
            assert(old(self).proposals().remove(nonce).insert(nonce, proposal) =~= old(self).proposals().insert(nonce, proposal));
        }
        Ok(())
    }
}

impl AccessControl {
    /// Carries out the proposal under `nonce` if it is at most seven days old
    /// and has enough approvals, then deletes it.
    pub fn execute_proposal(&mut self, nonce: u64, now: u64) -> (r: Result<(), AccessControlError>)
        requires
            old(self).wf(),
            old(self).proposals().contains_key(nonce) ==> old(self).proposals()[nonce].created_at
                <= u64::MAX - PROPOSAL_LIFETIME_SECS,
            old(self).proposals().contains_key(nonce) && old(self).proposals()[nonce].action is TransferAdmin ==> old(self).roles.admin is Some,
        ensures
            final(self).wf(),
            r is Err ==> *final(self) == *old(self),
            ({
                let props = old(self).proposals();
                if !props.contains_key(nonce) {
                    r == Err::<(), _>(AccessControlError::ProposalNotFound)
                } else if now > props[nonce].created_at + PROPOSAL_LIFETIME_SECS {
                    r == Err::<(), _>(AccessControlError::ProposalExpired)
                } else if props[nonce].approvals@.len() < old(self).threshold() {
                    r == Err::<(), _>(AccessControlError::ProposalThresholdNotMet)
                } else {
                    match apply_action(
                        old(self).roles.pairs(),
                        old(self).roles.admin_view(),
                        props[nonce].action,
                    ) {
                        Err(e) => r == Err::<(), _>(e),
                        Ok(outcome) => {
                            &&& r is Ok
                            &&& final(self).roles.pairs() == outcome.0
                            &&& final(self).roles.admin_view() == outcome.1
                            &&& final(self).proposals() == props.remove(nonce)
                            &&& final(self).multisig.config == old(self).multisig.config
                            &&& final(self).multisig.next_nonce == old(self).multisig.next_nonce
                            &&& final(self).revocations == old(self).revocations
                            &&& final(self).transfer == old(self).transfer
                        },
                    }
                }
            }),
            r is Ok ==> forall|role: Seq<u8>, acct: Seq<u8>|
                #[trigger] final(self).holds(role, acct) == match old(
                    self,
                ).proposals()[nonce].action {
                    AdminAction::GrantRole(g, a) => old(self).holds(role, acct) || (role == g@
                        && acct == a@),
                    AdminAction::RevokeRole(g, a) => old(self).holds(role, acct) && !(role == g@
                        && acct == a@),
                    AdminAction::EmergencyRevokeRole(g, a) => old(self).holds(role, acct) && !(role
                        == g@ && acct == a@),
                    AdminAction::TransferAdmin(n) => if role == admin_role() {
                        (old(self).holds(role, acct) && old(self).roles.admin_view() != Some(acct))
                            || acct == n@
                    } else {
                        old(self).holds(role, acct)
                    },
                    _ => old(self).holds(role, acct),
                },
            r is Ok ==> (old(self).proposals()[nonce].action matches AdminAction::TransferAdmin(n)
                ==> final(self).roles.admin_view() == Some(n@)),
    {
        let ghost pairs0 = self.roles.pairs();
        let ghost admin0 = self.roles.admin_view();
        let i = match find(&self.multisig.proposals, &nonce) {
            Some(i) => i,
            None => {
                return Err(AccessControlError::ProposalNotFound);
            },
        };
        let threshold: u32 = match &self.multisig.config {
            Some(c) => c.0,
            None => 1,
        };
        if now > self.multisig.proposals[i].created_at + PROPOSAL_LIFETIME_SECS {
            return Err(AccessControlError::ProposalExpired);
        }
        if self.multisig.proposals[i].approvals.len() < threshold as usize {
            return Err(AccessControlError::ProposalThresholdNotMet);
        }
        let p = &self.multisig.proposals[i];
        match &p.action {
            AdminAction::GrantRole(role, account) => {
                if self.roles.has_role(role, account) {
                    return Err(AccessControlError::RoleAlreadyGranted);
                }
                self.roles.grant_role_internal(copy_bytes(role), copy_bytes(account));
            },
            AdminAction::RevokeRole(role, account) => {
                if !self.roles.has_role(role, account) {
                    return Err(AccessControlError::RoleNotGranted);
                }
                self.roles.revoke_role_internal(role, account);
            },
            AdminAction::EmergencyRevokeRole(role, account) => {
                if !self.roles.has_role(role, account) {
                    return Err(AccessControlError::RoleNotGranted);
                }
                self.roles.revoke_role_internal(role, account);
            },
            AdminAction::TransferAdmin(new_admin) => {
                let old_admin = copy_bytes(self.roles.admin.as_ref().unwrap());
                self.roles.revoke_role_internal(&role_admin(), &old_admin);
                self.roles.grant_role_internal(role_admin(), copy_bytes(new_admin));
                self.roles.admin = Some(copy_bytes(new_admin));
            },
            AdminAction::SetGlobalPause(_, _) => {},
            AdminAction::AllowToken(_) => {},
        }
        remove_key(&mut self.multisig.proposals, &nonce);
        proof {
            let action = old(self).proposals()[nonce].action;
            assert forall|role: Seq<u8>, acct: Seq<u8>|
                #[trigger] self.holds(role, acct) == match action {
                    AdminAction::GrantRole(g, a) => old(self).holds(role, acct) || (role == g@
                        && acct == a@),
                    AdminAction::RevokeRole(g, a) => old(self).holds(role, acct) && !(role == g@
                        && acct == a@),
                    AdminAction::EmergencyRevokeRole(g, a) => old(self).holds(role, acct) && !(role
                        == g@ && acct == a@),
                    AdminAction::TransferAdmin(n) => if role == admin_role() {
                        (old(self).holds(role, acct) && admin0 != Some(acct)) || acct == n@
                    } else {
                        old(self).holds(role, acct)
                    },
                    _ => old(self).holds(role, acct),
                } by {
                lemma_proposal_action_effect(pairs0, admin0, action, (role, acct));
            }
        }
        Ok(())
    }
}

} // verus!

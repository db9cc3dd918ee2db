//! The ledger core: fee-adjusted bookkeeping for swap, deposit and harvest.
//!
//! The ledger is an explicit state value. Each operation is an atomic
//! transaction: it either returns `Ok` and commits its state change, or
//! returns an error and leaves the state exactly as it was. The host that
//! embeds the ledger delivers the caller's identity and the observed pool
//! reserve as plain arguments, and performs the asset transfers that an
//! accepted operation calls for.

use std::collections::HashMap;
use vstd::prelude::*;

use crate::token::{valid_asset_id, TokenId};

verus! {

broadcast use vstd::std_specs::hash::group_hash_axioms;

/// The fee denominator: fees are expressed in basis points over this total.
pub const PERCENTAGE_TOTAL: u32 = 10_000;

/// The smallest deposit the ledger accepts, in minor units.
pub const MINIMUM_DEPOSIT: u64 = 1_000;

/// Why an operation was rejected. Every rejection leaves the ledger state
/// unchanged.
#[derive(Clone, Copy, Debug, PartialEq, Eq, Structural)]
pub enum LedgerError {
    /// Bad input shape: an amount too small or zero, or a malformed asset
    /// identifier.
    ValidationError,
    /// The caller is the zero identity, or is not the administrator where the
    /// administrator is required.
    AuthorizationError,
    /// The ledger is not in a state to serve the request: the asset is not
    /// supported, or no fee is configured.
    StateError,
    /// The pool reserve or the depositor's credit is too low for the
    /// requested amount.
    InsufficientFundsError,
}

/// The mathematical model of a ledger state.
#[verifier::ext_equal]
pub ghost struct LedgerView {
    /// The administrator's identity.
    pub owner: u64,
    /// The protocol fee numerator over [`PERCENTAGE_TOTAL`].
    pub fee: u32,
    /// The asset the pool pays out on swap and accepts on deposit.
    pub to_token: Option<Seq<u8>>,
    /// The assets accepted as swap input, in order of registration.
    pub from_tokens: Seq<Seq<u8>>,
    /// Each depositor's redeemable credit; an absent key means zero.
    pub balances: Map<u64, u128>,
}

impl LedgerView {
    /// The credit owed to `address`; zero for an address that never deposited.
    pub open spec fn balance_of(self, address: u64) -> u128 {
        if self.balances.contains_key(address) {
            self.balances[address]
        } else {
            0
        }
    }

    /// Whether `token` is accepted as swap input.
    pub open spec fn supports(self, token: Seq<u8>) -> bool {
        self.from_tokens.contains(token)
    }

    /// A well-formed ledger: the fee is strictly inside `(0, PERCENTAGE_TOTAL)`,
    /// the output asset is set and well-formed, and the supported input assets
    /// are well-formed and pairwise distinct.
    pub open spec fn wf(self) -> bool {
        &&& 0 < self.fee < PERCENTAGE_TOTAL
        &&& match self.to_token {
            Some(t) => valid_asset_id(t),
            None => false,
        }
        &&& forall|i: int|
            0 <= i < self.from_tokens.len() ==> valid_asset_id(#[trigger] self.from_tokens[i])
        &&& forall|i: int, j: int|
            0 <= i < j < self.from_tokens.len() ==> self.from_tokens[i] != self.from_tokens[j]
    }
}

/// `floor(amount * fee_percent / PERCENTAGE_TOTAL)`: the fee taken from a
/// swap, and the bonus credited on a deposit.
pub open spec fn fee_amount(amount: int, fee_percent: int) -> int {
    amount * fee_percent / (PERCENTAGE_TOTAL as int)
}

/// What a deposit of `amount` credits to the depositor: the amount plus the
/// fee-rate bonus.
pub open spec fn deposit_credit(amount: int, fee_percent: int) -> int {
    amount + fee_amount(amount, fee_percent)
}

/// The outcome a swap must have: the checks in order, and on acceptance the
/// net payout of the output asset. A swap never changes the ledger state;
/// the host debits the payout from the pool reserve.
pub open spec fn spec_swap(
    v: LedgerView,
    caller: u64,
    token: Seq<u8>,
    amount: u64,
    pool_reserve: u128,
) -> Result<u64, LedgerError> {
    if amount < PERCENTAGE_TOTAL as u64 {
        Err(LedgerError::ValidationError)
    } else if caller == 0 {
        Err(LedgerError::AuthorizationError)
    } else if !v.supports(token) {
        Err(LedgerError::StateError)
    } else if v.fee == 0 {
        Err(LedgerError::StateError)
    } else {
        let net = amount - fee_amount(amount as int, v.fee as int);
        if net >= amount {
            Err(LedgerError::ValidationError)
        } else if net > pool_reserve as int {
            Err(LedgerError::InsufficientFundsError)
        } else if net == 0 {
            Err(LedgerError::ValidationError)
        } else {
            Ok(net as u64)
        }
    }
}

/// The outcome a deposit must have: the checks in order, and on acceptance
/// the new state, with the caller credited the amount plus the fee-rate
/// bonus.
pub open spec fn spec_deposit(v: LedgerView, caller: u64, token: Seq<u8>, amount: u64) -> Result<
    LedgerView,
    LedgerError,
> {
    if caller == 0 {
        Err(LedgerError::AuthorizationError)
    } else if v.to_token != Some(token) {
        Err(LedgerError::StateError)
    } else if amount == 0 {
        Err(LedgerError::ValidationError)
    } else if amount < MINIMUM_DEPOSIT {
        Err(LedgerError::ValidationError)
    } else {
        let credited = v.balance_of(caller) + deposit_credit(amount as int, v.fee as int);
        Ok(LedgerView { balances: v.balances.insert(caller, credited as u128), ..v })
    }
}

/// The outcome a harvest must have: the checks in order, and on acceptance
/// the new state, with the caller debited exactly the amount paid out.
pub open spec fn spec_harvest(
    v: LedgerView,
    caller: u64,
    token: Seq<u8>,
    amount: u64,
    pool_reserve: u128,
) -> Result<LedgerView, LedgerError> {
    if caller == 0 {
        Err(LedgerError::AuthorizationError)
    } else if !v.supports(token) {
        Err(LedgerError::StateError)
    } else if amount == 0 {
        Err(LedgerError::ValidationError)
    } else if pool_reserve == 0 {
        Err(LedgerError::InsufficientFundsError)
    } else if v.balance_of(caller) == 0 {
        Err(LedgerError::InsufficientFundsError)
    } else if pool_reserve < amount as u128 {
        Err(LedgerError::InsufficientFundsError)
    } else if v.balance_of(caller) < amount as u128 {
        Err(LedgerError::InsufficientFundsError)
    } else {
        let debited = v.balance_of(caller) - amount;
        Ok(LedgerView { balances: v.balances.insert(caller, debited as u128), ..v })
    }
}

/// The outcome setting the fee must have: administrator only, and only a
/// value strictly inside `(0, PERCENTAGE_TOTAL)`.
pub open spec fn spec_set_fee(v: LedgerView, caller: u64, new_fee_percentage: u32) -> Result<
    LedgerView,
    LedgerError,
> {
    if caller != v.owner {
        Err(LedgerError::AuthorizationError)
    } else if !(0 < new_fee_percentage && new_fee_percentage < PERCENTAGE_TOTAL) {
        Err(LedgerError::ValidationError)
    } else {
        Ok(LedgerView { fee: new_fee_percentage, ..v })
    }
}

/// The outcome registering a supported input asset must have: administrator
/// only, well-formed identifiers only, and set semantics — registering an
/// asset twice changes nothing.
pub open spec fn spec_add_from_token(v: LedgerView, caller: u64, asset: Seq<u8>) -> Result<
    LedgerView,
    LedgerError,
> {
    if caller != v.owner {
        Err(LedgerError::AuthorizationError)
    } else if !valid_asset_id(asset) {
        Err(LedgerError::ValidationError)
    } else if v.supports(asset) {
        Ok(v)
    } else {
        Ok(LedgerView { from_tokens: v.from_tokens.push(asset), ..v })
    }
}

/// The outcome setting the output asset must have: administrator only,
/// well-formed identifiers only; the previous output asset is overwritten.
pub open spec fn spec_add_to_token(v: LedgerView, caller: u64, asset: Seq<u8>) -> Result<
    LedgerView,
    LedgerError,
> {
    if caller != v.owner {
        Err(LedgerError::AuthorizationError)
    } else if !valid_asset_id(asset) {
        Err(LedgerError::ValidationError)
    } else {
        Ok(LedgerView { to_token: Some(asset), ..v })
    }
}

/// The outcome a withdrawal must have: administrator only; the whole
/// observed reserve of the chosen asset goes to the administrator, and the
/// ledger state — depositor credits included — is untouched.
pub open spec fn spec_withdraw(v: LedgerView, caller: u64, pool_reserve: u128) -> Result<
    u128,
    LedgerError,
> {
    if caller != v.owner {
        Err(LedgerError::AuthorizationError)
    } else {
        Ok(pool_reserve)
    }
}

/// The state a fresh ledger must have, or why deployment is refused: the fee
/// is validated first, then the input asset, then the output asset.
pub open spec fn spec_init(
    owner: u64,
    from_token: Seq<u8>,
    to_token: Seq<u8>,
    fee_percent: u32,
) -> Result<LedgerView, LedgerError> {
    if !(0 < fee_percent && fee_percent < PERCENTAGE_TOTAL) {
        Err(LedgerError::ValidationError)
    } else if !valid_asset_id(from_token) {
        Err(LedgerError::ValidationError)
    } else if !valid_asset_id(to_token) {
        Err(LedgerError::ValidationError)
    } else {
        Ok(
            LedgerView {
                owner,
                fee: fee_percent,
                to_token: Some(to_token),
                from_tokens: seq![from_token],
                balances: Map::empty(),
            },
        )
    }
}

/// Law: a fee computed at a rate strictly inside `(0, PERCENTAGE_TOTAL)` on
/// an amount of at least `PERCENTAGE_TOTAL` takes at least one unit and
/// leaves at least one unit, so every accepted swap pays out strictly less
/// than was paid in, and pays out something.
pub proof fn lemma_fee_amount_bounds(amount: int, fee_percent: int)
    by (nonlinear_arith)
    requires
        amount >= PERCENTAGE_TOTAL as int,
        0 < fee_percent < PERCENTAGE_TOTAL as int,
    ensures
        1 <= fee_amount(amount, fee_percent) < amount,
{
}

/// The fee never exceeds the amount it is computed on, for any rate up to
/// the denominator.
pub proof fn lemma_fee_amount_le(amount: int, fee_percent: int)
    by (nonlinear_arith)
    requires
        amount >= 0,
        0 <= fee_percent <= PERCENTAGE_TOTAL as int,
    ensures
        0 <= fee_amount(amount, fee_percent) <= amount,
{
}

/// Law: every accepted swap pays out exactly the amount minus the fee, pays
/// out something, pays out strictly less than was paid in, and never pays
/// out more than the pool reserve held before the swap.
pub proof fn lemma_swap_payout_bounds(
    v: LedgerView,
    caller: u64,
    token: Seq<u8>,
    amount: u64,
    pool_reserve: u128,
)
    requires
        v.fee < PERCENTAGE_TOTAL,
        spec_swap(v, caller, token, amount, pool_reserve) is Ok,
    ensures
        ({
            let net = spec_swap(v, caller, token, amount, pool_reserve)->Ok_0;
            &&& net == amount - fee_amount(amount as int, v.fee as int)
            &&& 0 < net < amount
            &&& net as u128 <= pool_reserve
        }),
{
    lemma_fee_amount_le(amount as int, v.fee as int);
}

/// Law: every accepted deposit raises the caller's credit by exactly the
/// amount plus the fee-rate bonus — so a depositor's credit never decreases
/// through deposits — and touches no other account and no configuration.
pub proof fn lemma_deposit_effects(v: LedgerView, caller: u64, token: Seq<u8>, amount: u64)
    requires
        spec_deposit(v, caller, token, amount) is Ok,
        v.balance_of(caller) + deposit_credit(amount as int, v.fee as int) <= u128::MAX,
    ensures
        ({
            let v2 = spec_deposit(v, caller, token, amount)->Ok_0;
            &&& v2.balance_of(caller) == v.balance_of(caller) + deposit_credit(
                amount as int,
                v.fee as int,
            )
            &&& v2.balance_of(caller) >= v.balance_of(caller)
            &&& forall|a: u64| a != caller ==> v2.balance_of(a) == v.balance_of(a)
            &&& v2.owner == v.owner && v2.fee == v.fee && v2.to_token == v.to_token
                && v2.from_tokens == v.from_tokens
        }),
{
    assert(deposit_credit(amount as int, v.fee as int) >= amount as int) by {
        assert(amount as int * (v.fee as int) >= 0) by (nonlinear_arith)
            requires
                amount as int >= 0,
                v.fee as int >= 0,
        ;
        assert(fee_amount(amount as int, v.fee as int) >= 0) by (nonlinear_arith)
            requires
                amount as int * (v.fee as int) >= 0,
        ;
    }
}

/// Law: every accepted harvest lowers the caller's credit by exactly the
/// amount paid out, and is accepted only when both the caller's credit and
/// the pool reserve cover that amount; no other account and no
/// configuration changes.
pub proof fn lemma_harvest_effects(
    v: LedgerView,
    caller: u64,
    token: Seq<u8>,
    amount: u64,
    pool_reserve: u128,
)
    requires
        spec_harvest(v, caller, token, amount, pool_reserve) is Ok,
    ensures
        v.balance_of(caller) >= amount as u128,
        pool_reserve >= amount as u128,
        ({
            let v2 = spec_harvest(v, caller, token, amount, pool_reserve)->Ok_0;
            &&& v2.balance_of(caller) == v.balance_of(caller) - amount as u128
            &&& forall|a: u64| a != caller ==> v2.balance_of(a) == v.balance_of(a)
            &&& v2.owner == v.owner && v2.fee == v.fee && v2.to_token == v.to_token
                && v2.from_tokens == v.from_tokens
        }),
{
}

/// Law: a harvest that asks for more than the caller's credit, or more than
/// the pool reserve, is rejected for insufficient funds.
pub proof fn lemma_harvest_insufficient_rejected(
    v: LedgerView,
    caller: u64,
    token: Seq<u8>,
    amount: u64,
    pool_reserve: u128,
)
    requires
        v.balance_of(caller) < amount as u128 || pool_reserve < amount as u128,
    ensures
        spec_harvest(v, caller, token, amount, pool_reserve) is Err,
{
}

/// Law: setting the fee succeeds exactly for the administrator with a value
/// strictly inside `(0, PERCENTAGE_TOTAL)`; anyone else is turned away with
/// an authorization error, and an accepted call sets exactly the value
/// asked for.
pub proof fn lemma_set_fee_bounds(v: LedgerView, caller: u64, new_fee_percentage: u32)
    ensures
        spec_set_fee(v, caller, new_fee_percentage) is Ok <==> (caller == v.owner && 0
            < new_fee_percentage < PERCENTAGE_TOTAL),
        caller != v.owner ==> spec_set_fee(v, caller, new_fee_percentage) == Err::<
            LedgerView,
            LedgerError,
        >(LedgerError::AuthorizationError),
        spec_set_fee(v, caller, new_fee_percentage) matches Ok(v2) ==> v2.fee
            == new_fee_percentage && v2.balances == v.balances && v2.to_token == v.to_token
            && v2.from_tokens == v.from_tokens && v2.owner == v.owner,
{
}

/// The ledger core. One value of this type holds all persisted state: the
/// administrator, the fee rate, the output asset, the supported input assets
/// and the per-depositor credits. The pool reserve is observed by the host,
/// not stored here.
pub struct Ledger {
    owner: u64,
    fee: u32,
    out_token: Option<TokenId>,
    in_tokens: Vec<TokenId>,
    balances: HashMap<u64, u128>,
}

impl View for Ledger {
    type V = LedgerView;

    closed spec fn view(&self) -> LedgerView {
        LedgerView {
            owner: self.owner,
            fee: self.fee,
            to_token: match self.out_token {
                Some(t) => Some(t@),
                None => None,
            },
            from_tokens: self.in_tokens@.map_values(|t: TokenId| t@),
            balances: self.balances@,
        }
    }
}

impl Ledger {
    /// The administrator's identity.
    pub fn owner(&self) -> (r: u64)
        ensures
            r == self@.owner,
    {
        self.owner
    }

    /// The configured fee numerator.
    pub fn fee_percent(&self) -> (r: u32)
        ensures
            r == self@.fee,
    {
        self.fee
    }

    /// The asset the pool pays out on swap and accepts on deposit.
    pub fn to_token(&self) -> (r: Option<&TokenId>)
        ensures
            match r {
                Some(t) => self@.to_token == Some(t@),
                None => self@.to_token is None,
            },
    {
        self.out_token.as_ref()
    }

    /// The assets accepted as swap input.
    pub fn from_tokens(&self) -> (r: &Vec<TokenId>)
        ensures
            r@.map_values(|t: TokenId| t@) == self@.from_tokens,
    {
        &self.in_tokens
    }

    /// The credit owed to `address`; zero for an address that never deposited.
    pub fn depositor_balance(&self, address: u64) -> (r: u128)
        ensures
            r == self@.balance_of(address),
    {
        match self.balances.get(&address) {
            Some(b) => *b,
            None => 0,
        }
    }

    /// Whether `token` is accepted as swap input.
    fn contains_from_token(&self, token: &TokenId) -> (r: bool)
        ensures
            r == self@.supports(token@),
    {
        let n = self.in_tokens.len();
        let mut i: usize = 0;
        while i < n
            invariant
                n == self.in_tokens.len(),
                i <= n,
                forall|j: int| 0 <= j < i ==> self.in_tokens@[j]@ != token@,
            decreases n - i,
        {
            if self.in_tokens[i].same_id(token) {
                proof {
                    assert(self@.from_tokens[i as int] == token@);
                }
                return true;
            }
            i += 1;
        }
        proof {
            assert forall|k: int| 0 <= k < self@.from_tokens.len() implies self@.from_tokens[k]
                != token@ by {
                assert(self@.from_tokens[k] == self.in_tokens@[k]@);
            }
        }
        false
    }
}

/// The endpoints of the unlocker contract and the fee arithmetic they
/// share, with the obligations every implementation owes its callers.
/// [`Ledger`] is the implementation; the host invokes these operations one
/// at a time, handing in the caller's identity and the observed pool
/// reserves, and performs the transfers an accepted operation calls for.
pub trait Unlocker: Sized + View<V = LedgerView> {
    /// Deploys a fresh ledger for the administrator `owner`: validates and
    /// sets the fee, registers the first supported input asset, and sets the
    /// output asset, in that order. The resulting ledger is well-formed and
    /// owes nothing to anyone.
    fn init(owner: u64, from_token: TokenId, to_token: TokenId, fee_percent: u32) -> (r: Result<
        Self,
        LedgerError,
    >)
        ensures
            match r {
                Ok(u) => spec_init(owner, from_token@, to_token@, fee_percent) == Ok::<
                    LedgerView,
                    LedgerError,
                >(u@) && u@.wf(),
                Err(e) => spec_init(owner, from_token@, to_token@, fee_percent) == Err::<
                    LedgerView,
                    LedgerError,
                >(e),
            },
    ;

    /// Swaps `amount` of the supported input asset `token_id`, paid in by
    /// `caller`, for the output asset. On acceptance the result is the net
    /// payout — the amount minus the fee — which the host must transfer to
    /// the caller out of `pool_reserve`, the host-observed reserve of the
    /// output asset. The ledger state itself never changes; a rejection
    /// means the host returns the inbound payment.
    fn swap(&self, caller: u64, token_id: &TokenId, amount: u64, pool_reserve: u128) -> (r:
        Result<u64, LedgerError>)
        requires
            self@.fee < PERCENTAGE_TOTAL,
        ensures
            r == spec_swap(self@, caller, token_id@, amount, pool_reserve),
            r matches Ok(net) ==> 0 < net < amount && net as u128 <= pool_reserve,
    ;

    /// Deposits `amount` of the output asset `token_id`, paid in by
    /// `caller`, crediting the caller's account with the amount plus the
    /// fee-rate bonus. A rejection leaves every account as it was; the host
    /// then returns the inbound payment. The caller's credit never
    /// decreases through a deposit.
    fn deposit(&mut self, caller: u64, token_id: &TokenId, amount: u64) -> (r: Result<
        (),
        LedgerError,
    >)
        requires
            spec_deposit(old(self)@, caller, token_id@, amount) is Ok ==> old(self)@.balance_of(
                caller,
            ) + deposit_credit(amount as int, old(self)@.fee as int) <= u128::MAX,
        ensures
            match spec_deposit(old(self)@, caller, token_id@, amount) {
                Ok(v) => r == Ok::<(), LedgerError>(()) && final(self)@ == v,
                Err(e) => r == Err::<(), LedgerError>(e) && final(self)@ == old(self)@,
            },
            final(self)@.balance_of(caller) >= old(self)@.balance_of(caller),
            old(self)@.wf() ==> final(self)@.wf(),
    ;

    /// Pays `amount` of the supported input asset `token`, instance `nonce`,
    /// out of the caller's credited balance. `pool_reserve` is the
    /// host-observed reserve of that asset instance; on acceptance the host
    /// must transfer the amount to the caller and the caller's credit drops
    /// by exactly that amount. A rejection leaves every account as it was.
    fn harvest(
        &mut self,
        caller: u64,
        token: &TokenId,
        nonce: u64,
        amount: u64,
        pool_reserve: u128,
    ) -> (r: Result<(), LedgerError>)
        ensures
            match spec_harvest(old(self)@, caller, token@, amount, pool_reserve) {
                Ok(v) => r == Ok::<(), LedgerError>(()) && final(self)@ == v,
                Err(e) => r == Err::<(), LedgerError>(e) && final(self)@ == old(self)@,
            },
            r is Ok ==> old(self)@.balance_of(caller) >= amount as u128 && pool_reserve >= amount
                as u128,
            old(self)@.wf() ==> final(self)@.wf(),
    ;

    /// Sets the protocol fee. Only the administrator may call this, and only
    /// values strictly inside `(0, PERCENTAGE_TOTAL)` are accepted; a
    /// rejection leaves the fee unchanged.
    fn try_set_fee_percentage(&mut self, caller: u64, new_fee_percentage: u32) -> (r: Result<
        (),
        LedgerError,
    >)
        ensures
            match spec_set_fee(old(self)@, caller, new_fee_percentage) {
                Ok(v) => r == Ok::<(), LedgerError>(()) && final(self)@ == v,
                Err(e) => r == Err::<(), LedgerError>(e) && final(self)@ == old(self)@,
            },
            old(self)@.wf() ==> final(self)@.wf(),
    ;

    /// Registers `asset` as a supported swap input. Only the administrator
    /// may call this, and only with a well-formed identifier. The supported
    /// set only ever grows, and registering an asset twice changes nothing.
    fn add_from_token(&mut self, caller: u64, asset: TokenId) -> (r: Result<(), LedgerError>)
        ensures
            match spec_add_from_token(old(self)@, caller, asset@) {
                Ok(v) => r == Ok::<(), LedgerError>(()) && final(self)@ == v,
                Err(e) => r == Err::<(), LedgerError>(e) && final(self)@ == old(self)@,
            },
            r is Ok ==> final(self)@.supports(asset@),
            forall|t: Seq<u8>| old(self)@.supports(t) ==> final(self)@.supports(t),
            old(self)@.wf() ==> final(self)@.wf(),
    ;

    /// Sets the output asset, overwriting any previous one. Only the
    /// administrator may call this, and only with a well-formed identifier.
    fn add_to_token(&mut self, caller: u64, asset: TokenId) -> (r: Result<(), LedgerError>)
        ensures
            match spec_add_to_token(old(self)@, caller, asset@) {
                Ok(v) => r == Ok::<(), LedgerError>(()) && final(self)@ == v,
                Err(e) => r == Err::<(), LedgerError>(e) && final(self)@ == old(self)@,
            },
            old(self)@.wf() ==> final(self)@.wf(),
    ;

    /// Drains the whole observed reserve `pool_reserve` of an asset instance
    /// to the administrator: the result is the amount the host must transfer
    /// to the administrator. Only the administrator may call this. It is an
    /// emergency, owner-trust operation: it is not depositor-aware, and the
    /// credits it may strand stay on the books untouched.
    fn withdraw(&self, caller: u64, token: &TokenId, nonce: u64, pool_reserve: u128) -> (r:
        Result<u128, LedgerError>)
        ensures
            r == spec_withdraw(self@, caller, pool_reserve),
    ;

    /// `floor(total_amount * percentage / PERCENTAGE_TOTAL)`.
    fn calculate_percentage(&self, total_amount: u64, percentage: u32) -> (r: u128)
        ensures
            r as int == fee_amount(total_amount as int, percentage as int),
    ;

    /// The amount a deposit credits: the amount plus the fee-rate bonus at
    /// the ledger's configured fee.
    fn calculate_amount_with_fees(&self, amount: u64) -> (r: u128)
        ensures
            r as int == deposit_credit(amount as int, self@.fee as int),
    ;
}

impl Unlocker for Ledger {
    fn init(owner: u64, from_token: TokenId, to_token: TokenId, fee_percent: u32) -> (r: Result<
        Self,
        LedgerError,
    >) {
        let ghost from_view = from_token@;
        let ghost to_view = to_token@;
        let mut ledger = Ledger {
            owner,
            fee: 0,
            out_token: None,
            in_tokens: Vec::new(),
            balances: HashMap::new(),
        };
        if let Err(e) = ledger.try_set_fee_percentage(owner, fee_percent) {
            return Err(e);
        }
        if let Err(e) = ledger.add_from_token(owner, from_token) {
            return Err(e);
        }
        if let Err(e) = ledger.add_to_token(owner, to_token) {
            return Err(e);
        }
        proof {
            let v = spec_init(owner, from_view, to_view, fee_percent)->Ok_0;
            assert(ledger@.from_tokens =~= v.from_tokens);
            assert(ledger@.balances =~= v.balances);
            assert(ledger@ =~= v);
        }
        Ok(ledger)
    }

    fn swap(&self, caller: u64, token_id: &TokenId, amount: u64, pool_reserve: u128) -> (r:
        Result<u64, LedgerError>) {
        if amount < PERCENTAGE_TOTAL as u64 {
            return Err(LedgerError::ValidationError);
        }
        if caller == 0 {
            return Err(LedgerError::AuthorizationError);
        }
        if !self.contains_from_token(token_id) {
            return Err(LedgerError::StateError);
        }
        let fee_percent = self.fee;
        if fee_percent == 0 {
            return Err(LedgerError::StateError);
        }
        let fee = self.calculate_percentage(amount, fee_percent);
        proof {
            lemma_fee_amount_bounds(amount as int, fee_percent as int);
        }
        let amount_after_fee = amount - (fee as u64);
        if !(amount_after_fee < amount) {
            return Err(LedgerError::ValidationError);
        }
        if amount_after_fee as u128 > pool_reserve {
            return Err(LedgerError::InsufficientFundsError);
        }
        if amount_after_fee == 0 {
            return Err(LedgerError::ValidationError);
        }
        Ok(amount_after_fee)
    }

    fn deposit(&mut self, caller: u64, token_id: &TokenId, amount: u64) -> (r: Result<
        (),
        LedgerError,
    >) {
        if caller == 0 {
            return Err(LedgerError::AuthorizationError);
        }
        let token_matches = match &self.out_token {
            Some(t) => t.same_id(token_id),
            None => false,
        };
        if !token_matches {
            return Err(LedgerError::StateError);
        }
        if amount == 0 {
            return Err(LedgerError::ValidationError);
        }
        if amount < MINIMUM_DEPOSIT {
            return Err(LedgerError::ValidationError);
        }
        let amount_with_fees = self.calculate_amount_with_fees(amount);
        let balance = self.depositor_balance(caller);
        self.balances.insert(caller, balance + amount_with_fees);
        proof {
            let v = spec_deposit(old(self)@, caller, token_id@, amount)->Ok_0;
            assert(final(self)@ =~= v);
        }
        Ok(())
    }

    #[allow(unused_variables)]
    fn harvest(
        &mut self,
        caller: u64,
        token: &TokenId,
        nonce: u64,
        amount: u64,
        pool_reserve: u128,
    ) -> (r: Result<(), LedgerError>) {
        if caller == 0 {
            return Err(LedgerError::AuthorizationError);
        }
        let sc_balance = pool_reserve;
        let dep_balance = self.depositor_balance(caller);
        if !self.contains_from_token(token) {
            return Err(LedgerError::StateError);
        }
        if amount == 0 {
            return Err(LedgerError::ValidationError);
        }
        if sc_balance == 0 {
            return Err(LedgerError::InsufficientFundsError);
        }
        if dep_balance == 0 {
            return Err(LedgerError::InsufficientFundsError);
        }
        if sc_balance < amount as u128 {
            return Err(LedgerError::InsufficientFundsError);
        }
        if dep_balance < amount as u128 {
            return Err(LedgerError::InsufficientFundsError);
        }
        self.balances.insert(caller, dep_balance - amount as u128);
        proof {
            let v = spec_harvest(old(self)@, caller, token@, amount, pool_reserve)->Ok_0;
            assert(final(self)@ =~= v);
        }
        Ok(())
    }

    fn try_set_fee_percentage(&mut self, caller: u64, new_fee_percentage: u32) -> (r: Result<
        (),
        LedgerError,
    >) {
        if caller != self.owner {
            return Err(LedgerError::AuthorizationError);
        }
        if !(new_fee_percentage > 0 && new_fee_percentage < PERCENTAGE_TOTAL) {
            return Err(LedgerError::ValidationError);
        }
        self.fee = new_fee_percentage;
        proof {
            let v = spec_set_fee(old(self)@, caller, new_fee_percentage)->Ok_0;
            assert(final(self)@ =~= v);
        }
        Ok(())
    }

    fn add_from_token(&mut self, caller: u64, asset: TokenId) -> (r: Result<(), LedgerError>) {
        if caller != self.owner {
            return Err(LedgerError::AuthorizationError);
        }
        if !asset.is_valid_esdt_identifier() {
            return Err(LedgerError::ValidationError);
        }
        if self.contains_from_token(&asset) {
            return Ok(());
        }
        let ghost old_view = self@;
        self.in_tokens.push(asset);
        proof {
            let v = spec_add_from_token(old_view, caller, asset@)->Ok_0;
            assert(final(self)@.from_tokens =~= v.from_tokens);
            assert(final(self)@ =~= v);
            assert(final(self)@.from_tokens.last() == asset@);
            assert forall|t: Seq<u8>| old_view.supports(t) implies final(self)@.supports(t) by {
                let i = choose|i: int|
                    0 <= i < old_view.from_tokens.len() && old_view.from_tokens[i] == t;
                assert(final(self)@.from_tokens[i] == t);
            }
            if old_view.wf() {
                let fv = final(self)@.from_tokens;
                assert forall|i: int, j: int| 0 <= i < j < fv.len() implies fv[i] != fv[j] by {
                    if j == fv.len() - 1 {
                        assert(old_view.from_tokens[i] == fv[i]);
                    }
                }
            }
        }
        Ok(())
    }

    fn add_to_token(&mut self, caller: u64, asset: TokenId) -> (r: Result<(), LedgerError>) {
        if caller != self.owner {
            return Err(LedgerError::AuthorizationError);
        }
        if !asset.is_valid_esdt_identifier() {
            return Err(LedgerError::ValidationError);
        }
        let ghost old_view = self@;
        self.out_token = Some(asset);
        proof {
            let v = spec_add_to_token(old_view, caller, asset@)->Ok_0;
            assert(final(self)@ =~= v);
        }
        Ok(())
    }

    #[allow(unused_variables)]
    fn withdraw(&self, caller: u64, token: &TokenId, nonce: u64, pool_reserve: u128) -> (r:
        Result<u128, LedgerError>) {
        if caller != self.owner {
            return Err(LedgerError::AuthorizationError);
        }
        Ok(pool_reserve)
    }

    fn calculate_percentage(&self, total_amount: u64, percentage: u32) -> (r: u128) {
        proof {
            assert((total_amount as int) * (percentage as int) <= (u64::MAX as int) * (u32::MAX
                as int)) by (nonlinear_arith)
                requires
                    total_amount as int <= u64::MAX as int,
                    percentage as int <= u32::MAX as int,
            ;
        }
        (total_amount as u128) * (percentage as u128) / (PERCENTAGE_TOTAL as u128)
    }

    fn calculate_amount_with_fees(&self, amount: u64) -> (r: u128) {
        let fee = self.calculate_percentage(amount, self.fee);
        proof {
            assert(fee_amount(amount as int, self@.fee as int) <= (u64::MAX as int) * (u32::MAX
                as int)) by (nonlinear_arith)
                requires
                    amount as int <= u64::MAX as int,
                    self@.fee as int <= u32::MAX as int,
            ;
        }
        (amount as u128) + fee
    }
}

} // verus!

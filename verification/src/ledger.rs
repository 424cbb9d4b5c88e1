//! The fee ledger: one running balance per token.
//!
//! The ledger is described by a map from token addresses to balances. A token gets
//! its entry with its first deposit and keeps it from then on: a withdrawal empties
//! an entry and leaves it in place.

use vstd::prelude::*;
use crate::address::Address;
use crate::conservation::carried;
use crate::conservation::lemma_carried_is_handed_out;
use crate::conservation::lemma_withdrawal_conserves;

verus! {

/// The balance that a ledger holds of a token: zero where the token has no entry.
pub open spec fn balance_of(ledger: Map<Address, nat>, token: Address) -> nat {
    if ledger.dom().contains(token) {
        ledger[token]
    } else {
        0
    }
}

/// The ledger after `amount` of `token` has been deposited: the token's balance has
/// grown by the amount, and every other entry is as before.
pub open spec fn deposited(ledger: Map<Address, nat>, token: Address, amount: nat) -> Map<
    Address,
    nat,
> {
    ledger.insert(token, balance_of(ledger, token) + amount)
}

/// Whether `token` is among the first `count` of the requested tokens.
pub open spec fn requested_before(tokens: Seq<Address>, count: int, token: Address) -> bool {
    exists|i: int| 0 <= i < count && i < tokens.len() && #[trigger] tokens[i] == token
}

/// Whether `token` is among the requested tokens.
pub open spec fn requested(tokens: Seq<Address>, token: Address) -> bool {
    requested_before(tokens, tokens.len() as int, token)
}

/// The amount that the request at `index` receives: the token's whole balance where
/// the token is requested for the first time, and nothing where an earlier request
/// has already taken it.
pub open spec fn withdrawn_at(ledger: Map<Address, nat>, tokens: Seq<Address>, index: int) -> nat
    recommends
        0 <= index < tokens.len(),
{
    if requested_before(tokens, index, tokens[index]) {
        0
    } else {
        balance_of(ledger, tokens[index])
    }
}

/// The ledger after the requested tokens have been withdrawn: the same entries, those
/// of the requested tokens emptied.
pub open spec fn drained(ledger: Map<Address, nat>, tokens: Seq<Address>) -> Map<Address, nat> {
    Map::new(
        |token: Address| ledger.dom().contains(token),
        |token: Address|
            if requested(tokens, token) {
                0nat
            } else {
                ledger[token]
            },
    )
}

/// A container that carries an amount of one token.
#[derive(Debug)]
pub struct Bucket {
    resource_address: Address,
    amount: u128,
}

impl Bucket {
    /// The token that the bucket carries.
    pub closed spec fn spec_resource_address(&self) -> Address {
        self.resource_address
    }

    /// The amount that the bucket carries, in attos.
    pub closed spec fn spec_amount(&self) -> u128 {
        self.amount
    }

    /// Makes an empty bucket for a token.
    pub fn new(resource_address: Address) -> (bucket: Bucket)
        ensures
            bucket.spec_resource_address() == resource_address,
            bucket.spec_amount() == 0,
    {
        Bucket { resource_address, amount: 0 }
    }

    /// Makes a bucket that carries `amount` of a token.
    pub fn with_amount(resource_address: Address, amount: u128) -> (bucket: Bucket)
        ensures
            bucket.spec_resource_address() == resource_address,
            bucket.spec_amount() == amount,
    {
        Bucket { resource_address, amount }
    }

    /// The token that the bucket carries.
    #[verifier::when_used_as_spec(spec_resource_address)]
    pub fn resource_address(&self) -> (resource_address: Address)
        ensures
            resource_address == self.spec_resource_address(),
    {
        self.resource_address
    }

    /// The amount that the bucket carries, in attos.
    #[verifier::when_used_as_spec(spec_amount)]
    pub fn amount(&self) -> (amount: u128)
        ensures
            amount == self.spec_amount(),
    {
        self.amount
    }

    /// Whether the bucket carries nothing.
    pub fn is_empty(&self) -> (empty: bool)
        ensures
            empty <==> self.spec_amount() == 0,
    {
        self.amount == 0
    }
}

/// One entry of the ledger: the balance kept of one token.
struct Vault {
    resource_address: Address,
    amount: u128,
}

/// Whether one of the vaults is the token's.
spec fn holds(vaults: Seq<Vault>, token: Address) -> bool {
    exists|i: int| 0 <= i < vaults.len() && (#[trigger] vaults[i]).resource_address == token
}

/// Where the token's vault stands, for a token that has one.
spec fn position(vaults: Seq<Vault>, token: Address) -> int {
    choose|i: int| 0 <= i < vaults.len() && (#[trigger] vaults[i]).resource_address == token
}

/// No two vaults are of the same token.
spec fn distinct(vaults: Seq<Vault>) -> bool {
    forall|i: int, j: int|
        0 <= i < j < vaults.len() ==> (#[trigger] vaults[i]).resource_address != (
        #[trigger] vaults[j]).resource_address
}

/// The map that a sequence of vaults stands for.
spec fn balances(vaults: Seq<Vault>) -> Map<Address, nat> {
    Map::new(
        |token: Address| holds(vaults, token),
        |token: Address| vaults[position(vaults, token)].amount as nat,
    )
}

/// Among distinct vaults, a token's vault is the only place for its balance.
proof fn lemma_balance_at(vaults: Seq<Vault>, i: int)
    requires
        distinct(vaults),
        0 <= i < vaults.len(),
    ensures
        holds(vaults, vaults[i].resource_address),
        position(vaults, vaults[i].resource_address) == i,
        balance_of(balances(vaults), vaults[i].resource_address) == vaults[i].amount,
{
    let token = vaults[i].resource_address;
    let p = position(vaults, token);
    assert(0 <= p < vaults.len() && vaults[p].resource_address == token);
    if p < i {
        assert(vaults[p].resource_address != vaults[i].resource_address);
    } else if i < p {
        assert(vaults[i].resource_address != vaults[p].resource_address);
    }
}

/// The accumulated fees: at most one balance per token.
pub struct FeeLedger {
    vaults: Vec<Vault>,
}

impl View for FeeLedger {
    type V = Map<Address, nat>;

    closed spec fn view(&self) -> Map<Address, nat> {
        balances(self.vaults@)
    }
}

impl FeeLedger {
    /// Each token has at most one entry.
    #[verifier::type_invariant]
    spec fn one_entry_per_token(&self) -> bool {
        distinct(self.vaults@)
    }

    /// Makes a ledger without entries.
    pub fn new() -> (ledger: FeeLedger)
        ensures
            ledger@ == Map::<Address, nat>::empty(),
    {
        let ledger = FeeLedger { vaults: Vec::new() };
        assert(ledger@ =~= Map::<Address, nat>::empty());
        ledger
    }

    /// Looks for the vault of a token.
    fn find(vaults: &Vec<Vault>, token: &Address) -> (found: Option<usize>)
        ensures
            match found {
                Some(i) => i < vaults.len() && vaults[i as int].resource_address == *token,
                None => !holds(vaults@, *token),
            },
    {
        let mut i: usize = 0;
        while i < vaults.len()
            invariant
                i <= vaults.len(),
                forall|j: int| 0 <= j < i ==> (#[trigger] vaults[j]).resource_address != *token,
            decreases vaults.len() - i,
        {
            if vaults[i].resource_address == *token {
                return Some(i);
            }
            i += 1;
        }
        None
    }

    /// Whether the token has an entry, be it empty.
    pub fn contains(&self, token: &Address) -> (present: bool)
        ensures
            present <==> self@.dom().contains(*token),
    {
        FeeLedger::find(&self.vaults, token).is_some()
    }

    /// The balance kept of a token: zero where it has no entry.
    pub fn balance(&self, token: &Address) -> (amount: u128)
        ensures
            amount == balance_of(self@, *token),
    {
        proof {
            use_type_invariant(self);
        }
        match FeeLedger::find(&self.vaults, token) {
            Some(i) => {
                proof {
                    lemma_balance_at(self.vaults@, i as int);
                }
                self.vaults[i].amount
            },
            None => 0,
        }
    }

    /// Whether the ledger has room for what the bucket carries.
    pub fn can_deposit(&self, bucket: &Bucket) -> (fits: bool)
        ensures
            fits <==> balance_of(self@, bucket.resource_address()) + bucket.amount() <= u128::MAX,
    {
        let stored = self.balance(&bucket.resource_address);
        stored.checked_add(bucket.amount).is_some()
    }

    /// Merges a bucket into the entry of its token, which is made where the token had none.
    ///
    /// Only the entry of the bucket's token changes. An empty bucket leaves every
    /// balance as it is. The new balance must fit in 128 bits.
    pub fn deposit(&mut self, bucket: Bucket)
        requires
            balance_of(old(self)@, bucket.resource_address()) + bucket.amount() <= u128::MAX,
        ensures
            final(self)@ == deposited(
                old(self)@,
                bucket.resource_address(),
                bucket.amount() as nat,
            ),
    {
        proof {
            use_type_invariant(&*self);
        }
        let mut vaults: Vec<Vault> = Vec::new();
        std::mem::swap(&mut vaults, &mut self.vaults);
        let ghost before = vaults@;
        let token = bucket.resource_address;
        match FeeLedger::find(&vaults, &token) {
            Some(i) => {
                proof {
                    lemma_balance_at(before, i as int);
                }
                let stored = vaults[i].amount;
                vaults.set(i, Vault { resource_address: token, amount: stored + bucket.amount });
                proof {
                    let after = vaults@;
                    assert(distinct(after));
                    assert forall|t: Address| holds(after, t) <==> holds(before, t) by {
                        if holds(before, t) {
                            let p = position(before, t);
                            assert(after[p].resource_address == t);
                        }
                        if holds(after, t) {
                            let p = position(after, t);
                            assert(before[p].resource_address == t);
                        }
                    }
                    assert forall|t: Address| holds(after, t) implies balances(after)[t] == deposited(
                        balances(before),
                        token,
                        bucket.amount as nat,
                    )[t] by {
                        let p = position(after, t);
                        lemma_balance_at(after, p);
                        lemma_balance_at(before, p);
                    }
                    assert(balances(after) =~= deposited(
                        balances(before),
                        token,
                        bucket.amount as nat,
                    ));
                }
            },
            None => {
                vaults.push(Vault { resource_address: token, amount: bucket.amount });
                proof {
                    let after = vaults@;
                    let last = before.len() as int;
                    assert(after[last].resource_address == token);
                    assert forall|i: int, j: int| 0 <= i < j < after.len() implies (
                    #[trigger] after[i]).resource_address != (
                    #[trigger] after[j]).resource_address by {
                        if j == last {
                            assert(before[i].resource_address != token);
                        } else {
                            assert(before[i].resource_address != before[j].resource_address);
                        }
                    }
                    assert forall|t: Address| holds(after, t) <==> (holds(before, t) || t
                        == token) by {
                        if holds(before, t) {
                            let p = position(before, t);
                            assert(after[p].resource_address == t);
                        }
                        if holds(after, t) && t != token {
                            let p = position(after, t);
                            assert(before[p].resource_address == t);
                        }
                    }
                    assert forall|t: Address| holds(after, t) implies balances(after)[t] == deposited(
                        balances(before),
                        token,
                        bucket.amount as nat,
                    )[t] by {
                        let p = position(after, t);
                        lemma_balance_at(after, p);
                        if p < last {
                            lemma_balance_at(before, p);
                        }
                    }
                    assert(balances(after) =~= deposited(
                        balances(before),
                        token,
                        bucket.amount as nat,
                    ));
                }
            },
        }
        self.vaults = vaults;
    }

    /// Withdraws the whole balance of each requested token, in the order of the request.
    ///
    /// There is one bucket per request, for the requested token. It carries the token's
    /// whole balance, or nothing where the token has no entry or an earlier request of
    /// the same call has already taken the balance. The entries of the requested tokens
    /// stay, emptied; no other entry changes.
    pub fn withdraw_all(&mut self, addresses: Vec<Address>) -> (buckets: Vec<Bucket>)
        ensures
            final(self)@ == drained(old(self)@, addresses@),
            buckets@.len() == addresses@.len(),
            forall|i: int|
                0 <= i < addresses@.len() ==> (#[trigger] buckets@[i]).resource_address()
                    == addresses@[i],
            forall|i: int|
                0 <= i < addresses@.len() ==> (#[trigger] buckets@[i]).amount() == withdrawn_at(
                    old(self)@,
                    addresses@,
                    i,
                ),
            forall|token: Address|
                balance_of(final(self)@, token) + #[trigger] carried(
                    buckets@,
                    token,
                    buckets@.len(),
                ) == balance_of(old(self)@, token),
    {
        proof {
            use_type_invariant(&*self);
        }
        let mut vaults: Vec<Vault> = Vec::new();
        std::mem::swap(&mut vaults, &mut self.vaults);
        let ghost before = balances(vaults@);
        let mut buckets: Vec<Bucket> = Vec::new();
        let mut n: usize = 0;
        proof {
            assert(balances(vaults@) =~= drained(before, addresses@.take(0)));
        }
        while n < addresses.len()
            invariant
                n <= addresses.len(),
                distinct(vaults@),
                balances(vaults@) == drained(before, addresses@.take(n as int)),
                buckets@.len() == n,
                forall|i: int|
                    0 <= i < n ==> (#[trigger] buckets@[i]).resource_address() == addresses@[i],
                forall|i: int|
                    0 <= i < n ==> (#[trigger] buckets@[i]).amount() == withdrawn_at(
                        before,
                        addresses@,
                        i,
                    ),
            decreases addresses.len() - n,
        {
            let token = addresses[n];
            let ghost entries = vaults@;
            let ghost earlier = addresses@.take(n as int);
            let ghost now = addresses@.take(n as int + 1);
            proof {
                assert forall|t: Address| requested(now, t) <==> (requested(earlier, t) || t
                    == token) by {
                    if requested(earlier, t) {
                        let i = choose|i: int|
                            0 <= i < earlier.len() && i < earlier.len() && #[trigger] earlier[i]
                                == t;
                        assert(now[i] == t);
                    }
                    if t == token {
                        assert(now[n as int] == t);
                    }
                    if requested(now, t) && t != token {
                        let i = choose|i: int|
                            0 <= i < now.len() && i < now.len() && #[trigger] now[i] == t;
                        assert(earlier[i] == t);
                    }
                }
                assert(requested(earlier, token) <==> requested_before(
                    addresses@,
                    n as int,
                    token,
                )) by {
                    if requested(earlier, token) {
                        let i = choose|i: int|
                            0 <= i < earlier.len() && i < earlier.len() && #[trigger] earlier[i]
                                == token;
                        assert(addresses@[i] == token);
                    }
                    if requested_before(addresses@, n as int, token) {
                        let i = choose|i: int|
                            0 <= i < n && i < addresses@.len() && #[trigger] addresses@[i]
                                == token;
                        assert(earlier[i] == token);
                    }
                }
            }
            let bucket = match FeeLedger::find(&vaults, &token) {
                Some(i) => {
                    proof {
                        lemma_balance_at(entries, i as int);
                    }
                    let amount = vaults[i].amount;
                    vaults.set(i, Vault { resource_address: token, amount: 0 });
                    proof {
                        let after = vaults@;
                        assert(distinct(after));
                        assert forall|t: Address| holds(after, t) <==> holds(entries, t) by {
                            if holds(entries, t) {
                                let p = position(entries, t);
                                assert(after[p].resource_address == t);
                            }
                            if holds(after, t) {
                                let p = position(after, t);
                                assert(entries[p].resource_address == t);
                            }
                        }
                        assert forall|t: Address| holds(after, t) implies balances(after)[t]
                            == drained(before, now)[t] by {
                            let p = position(after, t);
                            lemma_balance_at(after, p);
                            lemma_balance_at(entries, p);
                        }
                        assert(balances(after) =~= drained(before, now));
                        assert(drained(before, earlier).dom().contains(token));
                        assert(amount == drained(before, earlier)[token]);
                        assert(amount == withdrawn_at(before, addresses@, n as int));
                    }
                    Bucket { resource_address: token, amount }
                },
                None => {
                    proof {
                        assert(balances(entries) =~= drained(before, now));
                        assert(!drained(before, earlier).dom().contains(token));
                        assert(withdrawn_at(before, addresses@, n as int) == 0);
                    }
                    Bucket { resource_address: token, amount: 0 }
                },
            };
            buckets.push(bucket);
            n += 1;
        }
        proof {
            assert(addresses@.take(n as int) =~= addresses@);
            assert forall|token: Address|
                balance_of(balances(vaults@), token) + #[trigger] carried(
                    buckets@,
                    token,
                    buckets@.len(),
                ) == balance_of(before, token) by {
                lemma_carried_is_handed_out(before, addresses@, buckets@, token, addresses@.len());
                lemma_withdrawal_conserves(before, addresses@, token);
            }
        }
        self.vaults = vaults;
        buckets
    }
}

} // verus!

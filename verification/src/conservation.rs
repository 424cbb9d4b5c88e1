//! Conservation of value: the ledger neither loses nor makes up tokens.
//!
//! What a ledger holds of a token is what was deposited of it less what was handed
//! out of it, over one operation and over any history of operations.

use vstd::prelude::*;
use crate::address::Address;
use crate::ledger::Bucket;
use crate::ledger::balance_of;
use crate::ledger::deposited;
use crate::ledger::drained;
use crate::ledger::requested;
use crate::ledger::requested_before;
use crate::ledger::withdrawn_at;

verus! {

/// The amount of `token` that the first `count` requests of a withdrawal receive.
pub open spec fn handed_out(
    ledger: Map<Address, nat>,
    tokens: Seq<Address>,
    token: Address,
    count: nat,
) -> nat
    decreases count,
{
    if count == 0 {
        0
    } else {
        let index = count - 1;
        let rest = handed_out(ledger, tokens, token, index as nat);
        if tokens[index] == token {
            rest + withdrawn_at(ledger, tokens, index)
        } else {
            rest
        }
    }
}

/// The amount of `token` that the first `count` buckets carry together.
pub open spec fn carried(buckets: Seq<Bucket>, token: Address, count: nat) -> nat
    decreases count,
{
    if count == 0 {
        0
    } else {
        let index = count - 1;
        let rest = carried(buckets, token, index as nat);
        if buckets[index].resource_address() == token {
            rest + buckets[index].amount() as nat
        } else {
            rest
        }
    }
}

/// A withdrawal hands out the whole balance of each requested token once, and
/// nothing of any other token.
pub proof fn lemma_handed_out(
    ledger: Map<Address, nat>,
    tokens: Seq<Address>,
    token: Address,
    count: nat,
)
    requires
        count <= tokens.len(),
    ensures
        handed_out(ledger, tokens, token, count) == if requested_before(
            tokens,
            count as int,
            token,
        ) {
            balance_of(ledger, token)
        } else {
            0
        },
    decreases count,
{
    if count > 0 {
        let index = (count - 1) as int;
        lemma_handed_out(ledger, tokens, token, index as nat);
        if requested_before(tokens, index, token) {
            let i = choose|i: int| 0 <= i < index && i < tokens.len() && #[trigger] tokens[i] == token;
            assert(tokens[i] == token);
            assert(requested_before(tokens, count as int, token));
        } else if tokens[index] == token {
            assert(requested_before(tokens, count as int, token));
        } else {
            if requested_before(tokens, count as int, token) {
                let i = choose|i: int|
                    0 <= i < count && i < tokens.len() && #[trigger] tokens[i] == token;
                assert(tokens[i] == token);
                assert(i < index);
                assert(requested_before(tokens, index, token));
            }
        }
    }
}

/// The buckets of a withdrawal carry what the withdrawal hands out.
pub proof fn lemma_carried_is_handed_out(
    ledger: Map<Address, nat>,
    tokens: Seq<Address>,
    buckets: Seq<Bucket>,
    token: Address,
    count: nat,
)
    requires
        count <= tokens.len(),
        buckets.len() == tokens.len(),
        forall|i: int|
            0 <= i < tokens.len() ==> (#[trigger] buckets[i]).resource_address() == tokens[i],
        forall|i: int|
            0 <= i < tokens.len() ==> (#[trigger] buckets[i]).amount() == withdrawn_at(
                ledger,
                tokens,
                i,
            ),
    ensures
        carried(buckets, token, count) == handed_out(ledger, tokens, token, count),
    decreases count,
{
    if count > 0 {
        let index = (count - 1) as int;
        lemma_carried_is_handed_out(ledger, tokens, buckets, token, index as nat);
        assert(buckets[index].resource_address() == tokens[index]);
        assert(buckets[index].amount() == withdrawn_at(ledger, tokens, index));
    }
}

/// A deposit adds its amount to the balance of its token and to no other.
pub proof fn lemma_deposit_conserves(
    ledger: Map<Address, nat>,
    token: Address,
    amount: nat,
    other: Address,
)
    ensures
        balance_of(deposited(ledger, token, amount), token) == balance_of(ledger, token) + amount,
        other != token ==> balance_of(deposited(ledger, token, amount), other) == balance_of(
            ledger,
            other,
        ),
        deposited(ledger, token, amount).dom() == ledger.dom().insert(token),
{
}

/// What a withdrawal leaves of a token and what it hands out of it are together what
/// was there before.
pub proof fn lemma_withdrawal_conserves(
    ledger: Map<Address, nat>,
    tokens: Seq<Address>,
    token: Address,
)
    ensures
        balance_of(drained(ledger, tokens), token) + handed_out(
            ledger,
            tokens,
            token,
            tokens.len(),
        ) == balance_of(ledger, token),
        drained(ledger, tokens).dom() == ledger.dom(),
{
    lemma_handed_out(ledger, tokens, token, tokens.len());
    assert(drained(ledger, tokens).dom() =~= ledger.dom());
}

/// One operation on a ledger, as a history records it.
pub enum LedgerEvent {
    /// An amount of one token is deposited.
    Deposit { token: Address, amount: nat },
    /// The listed tokens are withdrawn, in this order.
    Withdrawal { tokens: Seq<Address> },
}

/// The ledger that a history of operations leads to, from a ledger without entries.
pub open spec fn replay(history: Seq<LedgerEvent>) -> Map<Address, nat>
    decreases history.len(),
{
    if history.len() == 0 {
        Map::empty()
    } else {
        let earlier = replay(history.drop_last());
        match history.last() {
            LedgerEvent::Deposit { token, amount } => deposited(earlier, token, amount),
            LedgerEvent::Withdrawal { tokens } => drained(earlier, tokens),
        }
    }
}

/// All that a history has deposited of a token.
pub open spec fn total_deposited(history: Seq<LedgerEvent>, token: Address) -> nat
    decreases history.len(),
{
    if history.len() == 0 {
        0
    } else {
        let earlier = total_deposited(history.drop_last(), token);
        match history.last() {
            LedgerEvent::Deposit { token: deposit_token, amount } => if deposit_token == token {
                earlier + amount
            } else {
                earlier
            },
            LedgerEvent::Withdrawal { tokens } => earlier,
        }
    }
}

/// All that the withdrawals of a history have handed out of a token.
pub open spec fn total_withdrawn(history: Seq<LedgerEvent>, token: Address) -> nat
    decreases history.len(),
{
    if history.len() == 0 {
        0
    } else {
        let earlier = total_withdrawn(history.drop_last(), token);
        match history.last() {
            LedgerEvent::Deposit { token: deposit_token, amount } => earlier,
            LedgerEvent::Withdrawal { tokens } => earlier + handed_out(
                replay(history.drop_last()),
                tokens,
                token,
                tokens.len(),
            ),
        }
    }
}

/// After any history of deposits and withdrawals, the balance kept of a token is what
/// was deposited of it less what was withdrawn of it. Balances are natural numbers,
/// so no withdrawal hands out more than was deposited.
pub proof fn lemma_ledger_conservation(history: Seq<LedgerEvent>, token: Address)
    ensures
        balance_of(replay(history), token) + total_withdrawn(history, token) == total_deposited(
            history,
            token,
        ),
        total_withdrawn(history, token) <= total_deposited(history, token),
    decreases history.len(),
{
    if history.len() > 0 {
        lemma_ledger_conservation(history.drop_last(), token);
        let earlier = replay(history.drop_last());
        match history.last() {
            LedgerEvent::Deposit { token: deposit_token, amount } => {
                lemma_deposit_conserves(earlier, deposit_token, amount, token);
            },
            LedgerEvent::Withdrawal { tokens } => {
                lemma_withdrawal_conserves(earlier, tokens, token);
            },
        }
    }
}

/// A request for a token without an entry receives nothing.
pub proof fn lemma_absent_token_is_empty(
    ledger: Map<Address, nat>,
    tokens: Seq<Address>,
    index: int,
)
    requires
        0 <= index < tokens.len(),
        !ledger.dom().contains(tokens[index]),
    ensures
        withdrawn_at(ledger, tokens, index) == 0,
        !drained(ledger, tokens).dom().contains(tokens[index]),
{
}

/// Withdrawing a token of which no history has deposited anything hands out nothing.
pub proof fn lemma_never_deposited_is_empty(
    history: Seq<LedgerEvent>,
    tokens: Seq<Address>,
    index: int,
)
    requires
        0 <= index < tokens.len(),
        total_deposited(history, tokens[index]) == 0,
    ensures
        withdrawn_at(replay(history), tokens, index) == 0,
{
    lemma_ledger_conservation(history, tokens[index]);
}

/// A token that is requested again in one withdrawal, or in a second withdrawal right
/// after the first, receives nothing.
pub proof fn lemma_repeated_request_is_empty(
    ledger: Map<Address, nat>,
    tokens: Seq<Address>,
    again: Seq<Address>,
    index: int,
)
    requires
        0 <= index < again.len(),
        requested(tokens, again[index]),
    ensures
        withdrawn_at(drained(ledger, tokens), again, index) == 0,
        forall|i: int, j: int|
            0 <= i < j < tokens.len() && tokens[i] == tokens[j] ==> withdrawn_at(ledger, tokens, j)
                == 0,
{
    assert forall|i: int, j: int|
        0 <= i < j < tokens.len() && tokens[i] == tokens[j] implies withdrawn_at(ledger, tokens, j)
        == 0 by {
        assert(requested_before(tokens, j, tokens[j]));
    }
}

} // verus!

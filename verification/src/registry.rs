//! The registry: one configuration, one fee ledger, one owner.
//!
//! Any pool may synchronize. Changing the configuration and withdrawing the fees are
//! for the owner, who proves the capability by presenting the owner badge.

use vstd::prelude::*;
use crate::address::Address;
use crate::config::ConfigError;
use crate::config::RegistryConfig;
use crate::config::config_is_valid;
use crate::config::config_verdict;
use crate::conservation::carried;
use crate::ledger::Bucket;
use crate::ledger::FeeLedger;
use crate::ledger::balance_of;
use crate::ledger::deposited;
use crate::ledger::drained;
use crate::ledger::withdrawn_at;
use crate::schedule::checked_next_sync_time;
use crate::schedule::lemma_next_sync_time_bounds;
use crate::schedule::lemma_next_sync_time_fits;
use crate::schedule::next_sync_time;
use crate::schedule::next_sync_time_at;

verus! {

/// Why the registry refuses an operation.
#[derive(Clone, Copy, Debug, PartialEq, Eq, Structural)]
pub enum RegistryError {
    /// The configuration breaks a rule.
    Config(ConfigError),
    /// The caller has not presented the owner badge.
    Unauthorized,
}

/// What a registry holds, as plain mathematics.
pub struct RegistryState {
    /// The badge that proves the owner capability.
    pub owner_badge_address: Address,
    /// The protocol fee share, in attos.
    pub fee_protocol_share: int,
    /// The length of one scheduling cycle, in seconds.
    pub sync_period: int,
    /// The number of slots a cycle is divided into.
    pub sync_slots: int,
    /// The balance kept of each token that was ever deposited.
    pub protocol_fees: Map<Address, nat>,
}

impl RegistryState {
    /// The configuration holds its rules.
    pub open spec fn is_valid(self) -> bool {
        config_is_valid(self.fee_protocol_share, self.sync_period, self.sync_slots)
    }

    /// Whether the presented badges prove the owner capability.
    pub open spec fn authorizes(self, badges: Seq<Address>) -> bool {
        badges.contains(self.owner_badge_address)
    }

    /// The next synchronization time of a pool under this configuration.
    pub open spec fn next_sync_time(self, pool: Address, now: int) -> int {
        next_sync_time_at(pool@, now, self.sync_period, self.sync_slots)
    }

    /// The state after a bucket of `amount` of `token` has been deposited.
    pub open spec fn with_deposit(self, token: Address, amount: nat) -> RegistryState {
        RegistryState { protocol_fees: deposited(self.protocol_fees, token, amount), ..self }
    }

    /// Whether the ledger has room for `amount` more of `token`.
    pub open spec fn has_room_for(self, token: Address, amount: nat) -> bool {
        balance_of(self.protocol_fees, token) + amount <= u128::MAX
    }

    /// Whether a synchronization stays within the machine's numbers: both deposits,
    /// one after the other, and the next synchronization time.
    pub open spec fn can_sync(
        self,
        pool: Address,
        a_token: Address,
        a_amount: nat,
        b_token: Address,
        b_amount: nat,
        now: int,
    ) -> bool {
        &&& self.has_room_for(a_token, a_amount)
        &&& self.with_deposit(a_token, a_amount).has_room_for(b_token, b_amount)
        &&& self.next_sync_time(pool, now) <= u64::MAX
    }

    /// The verdict on a change of configuration: the caller must be the owner, and
    /// then the new configuration must hold the rules.
    pub open spec fn update_verdict(
        self,
        badges: Seq<Address>,
        fee_protocol_share: int,
        sync_period: int,
        sync_slots: int,
    ) -> Result<(), RegistryError> {
        if !self.authorizes(badges) {
            Err(RegistryError::Unauthorized)
        } else {
            match config_verdict(fee_protocol_share, sync_period, sync_slots) {
                Ok(()) => Ok(()),
                Err(error) => Err(RegistryError::Config(error)),
            }
        }
    }
}

/// Deposits change no schedule: a pool that synchronizes again under the same
/// configuration and at the same time is given the same time, whatever was deposited
/// in between.
pub proof fn lemma_schedule_survives_deposits(
    state: RegistryState,
    token: Address,
    amount: nat,
    pool: Address,
    now: int,
)
    ensures
        state.with_deposit(token, amount).next_sync_time(pool, now) == state.next_sync_time(
            pool,
            now,
        ),
        state.with_deposit(token, amount).is_valid() == state.is_valid(),
{
}

/// Under a valid configuration every pool is given a time that is at least one
/// period and less than two periods away, and that fits in 64 bits as long as the time
/// two periods away does.
pub proof fn lemma_valid_config_schedules(state: RegistryState, pool: Address, now: int)
    requires
        state.is_valid(),
        0 <= now,
    ensures
        state.sync_period <= state.next_sync_time(pool, now) - now < 2 * state.sync_period,
        now + 2 * state.sync_period <= u64::MAX ==> state.next_sync_time(pool, now) <= u64::MAX,
{
    lemma_next_sync_time_bounds(pool@, now, state.sync_period, state.sync_slots);
    if now + 2 * state.sync_period <= u64::MAX {
        lemma_next_sync_time_fits(pool@, now, state.sync_period, state.sync_slots);
    }
}

/// A caller who does not present the owner badge can change nothing: the
/// configuration is refused before it is looked at.
pub proof fn lemma_unauthorized_is_refused(
    state: RegistryState,
    badges: Seq<Address>,
    fee_protocol_share: int,
    sync_period: int,
    sync_slots: int,
)
    requires
        !state.authorizes(badges),
    ensures
        state.update_verdict(badges, fee_protocol_share, sync_period, sync_slots) == Err::<
            (),
            RegistryError,
        >(RegistryError::Unauthorized),
{
}

/// The fee registry.
pub struct Registry {
    owner_badge_address: Address,
    protocol_fees: FeeLedger,
    config: RegistryConfig,
}

impl View for Registry {
    type V = RegistryState;

    closed spec fn view(&self) -> RegistryState {
        RegistryState {
            owner_badge_address: self.owner_badge_address,
            fee_protocol_share: self.config.spec_fee_protocol_share() as int,
            sync_period: self.config.spec_sync_period() as int,
            sync_slots: self.config.spec_sync_slots() as int,
            protocol_fees: self.protocol_fees@,
        }
    }
}

impl Registry {
    /// Creates a registry with an empty ledger for the holder of the owner badge.
    ///
    /// Succeeds exactly on the valid configurations; otherwise names the first broken rule.
    pub fn instantiate(
        owner_badge_address: Address,
        fee_protocol_share: i128,
        sync_period: u64,
        sync_slots: u64,
    ) -> (made: Result<Registry, ConfigError>)
        ensures
            made is Ok <==> config_is_valid(
                fee_protocol_share as int,
                sync_period as int,
                sync_slots as int,
            ),
            match made {
                Ok(registry) => registry@ == (RegistryState {
                    owner_badge_address,
                    fee_protocol_share: fee_protocol_share as int,
                    sync_period: sync_period as int,
                    sync_slots: sync_slots as int,
                    protocol_fees: Map::empty(),
                }),
                Err(error) => Err::<(), ConfigError>(error) == config_verdict(
                    fee_protocol_share as int,
                    sync_period as int,
                    sync_slots as int,
                ),
            },
    {
        match RegistryConfig::new(fee_protocol_share, sync_period, sync_slots) {
            Ok(config) => Ok(
                Registry { owner_badge_address, protocol_fees: FeeLedger::new(), config },
            ),
            Err(error) => Err(error),
        }
    }

    /// The badge that proves the owner capability.
    pub fn owner_badge_address(&self) -> (badge: Address)
        ensures
            badge == self@.owner_badge_address,
    {
        self.owner_badge_address
    }

    /// The protocol fee share, in attos.
    pub fn fee_protocol_share(&self) -> (share: i128)
        ensures
            share == self@.fee_protocol_share,
            self@.is_valid(),
    {
        self.config.fee_protocol_share()
    }

    /// The length of one scheduling cycle, in seconds.
    pub fn sync_period(&self) -> (period: u64)
        ensures
            period == self@.sync_period,
            self@.is_valid(),
    {
        self.config.sync_period()
    }

    /// The number of slots a cycle is divided into.
    pub fn sync_slots(&self) -> (slots: u64)
        ensures
            slots == self@.sync_slots,
            self@.is_valid(),
    {
        self.config.sync_slots()
    }

    /// The balance kept of a token: zero where none was ever deposited.
    pub fn protocol_fees(&self, token: &Address) -> (amount: u128)
        ensures
            amount == balance_of(self@.protocol_fees, *token),
    {
        self.protocol_fees.balance(token)
    }

    /// Whether the presented badges prove the owner capability.
    pub fn is_owner(&self, badges: &Vec<Address>) -> (authorized: bool)
        ensures
            authorized <==> self@.authorizes(badges@),
    {
        let mut i: usize = 0;
        while i < badges.len()
            invariant
                i <= badges.len(),
                forall|j: int| 0 <= j < i ==> badges@[j] != self.owner_badge_address,
            decreases badges.len() - i,
        {
            if badges[i] == self.owner_badge_address {
                return true;
            }
            i += 1;
        }
        false
    }

    /// Returns the next synchronization time of a pool: between one and two periods
    /// after `now`, in the slot that the pool's address decides.
    pub fn next_sync_time(&self, pool_address: Address, now: u64) -> (time: u64)
        requires
            self@.next_sync_time(pool_address, now as int) <= u64::MAX,
        ensures
            time == self@.next_sync_time(pool_address, now as int),
            self@.sync_period <= time - now < 2 * self@.sync_period,
    {
        let period = self.config.sync_period();
        let slots = self.config.sync_slots();
        next_sync_time(&pool_address, now, period, slots)
    }

    /// Whether a synchronization stays within the machine's numbers.
    pub fn can_sync(
        &self,
        pool_address: Address,
        a_bucket: &Bucket,
        b_bucket: &Bucket,
        now: u64,
    ) -> (possible: bool)
        ensures
            possible <==> self@.can_sync(
                pool_address,
                a_bucket.resource_address(),
                a_bucket.amount() as nat,
                b_bucket.resource_address(),
                b_bucket.amount() as nat,
                now as int,
            ),
    {
        let a_token = a_bucket.resource_address();
        let b_token = b_bucket.resource_address();
        let a_total = match self.protocol_fees.balance(&a_token).checked_add(a_bucket.amount()) {
            Some(total) => total,
            None => {
                return false;
            },
        };
        let b_stored = if b_token == a_token {
            a_total
        } else {
            self.protocol_fees.balance(&b_token)
        };
        if b_stored.checked_add(b_bucket.amount()).is_none() {
            return false;
        }
        let period = self.config.sync_period();
        let slots = self.config.sync_slots();
        checked_next_sync_time(&pool_address, now, period, slots).is_some()
    }

    /// Takes the fees that a pool has collected and tells the pool the protocol fee
    /// share and its next synchronization time.
    ///
    /// The first bucket is deposited, then the second. Nothing but the balances of
    /// their tokens changes. Open to any caller.
    pub fn sync(&mut self, pool_address: Address, a_bucket: Bucket, b_bucket: Bucket, now: u64) -> (
        answer: (i128, u64)
    )
        requires
            old(self)@.can_sync(
                pool_address,
                a_bucket.resource_address(),
                a_bucket.amount() as nat,
                b_bucket.resource_address(),
                b_bucket.amount() as nat,
                now as int,
            ),
        ensures
            final(self)@ == old(self)@.with_deposit(
                a_bucket.resource_address(),
                a_bucket.amount() as nat,
            ).with_deposit(b_bucket.resource_address(), b_bucket.amount() as nat),
            final(self)@.is_valid(),
            answer.0 == old(self)@.fee_protocol_share,
            answer.1 == old(self)@.next_sync_time(pool_address, now as int),
            old(self)@.sync_period <= answer.1 - now < 2 * old(self)@.sync_period,
    {
        self.protocol_fees.deposit(a_bucket);
        self.protocol_fees.deposit(b_bucket);
        let share = self.config.fee_protocol_share();
        let time = self.next_sync_time(pool_address, now);
        (share, time)
    }

    /// Replaces the configuration, for the owner and with a valid configuration only.
    ///
    /// The three parameters change together. A refused call changes nothing.
    pub fn update_config(
        &mut self,
        badges: &Vec<Address>,
        fee_protocol_share: i128,
        sync_period: u64,
        sync_slots: u64,
    ) -> (outcome: Result<(), RegistryError>)
        ensures
            outcome == old(self)@.update_verdict(
                badges@,
                fee_protocol_share as int,
                sync_period as int,
                sync_slots as int,
            ),
            outcome is Ok ==> final(self)@ == (RegistryState {
                fee_protocol_share: fee_protocol_share as int,
                sync_period: sync_period as int,
                sync_slots: sync_slots as int,
                ..old(self)@
            }),
            outcome is Err ==> *final(self) == *old(self),
            final(self)@.is_valid(),
    {
        self.config.recall_validity();
        if !self.is_owner(badges) {
            return Err(RegistryError::Unauthorized);
        }
        match RegistryConfig::new(fee_protocol_share, sync_period, sync_slots) {
            Ok(config) => {
                self.config = config;
                Ok(())
            },
            Err(error) => Err(RegistryError::Config(error)),
        }
    }

    /// Withdraws the whole balance of each requested token, for the owner only.
    ///
    /// There is one bucket per request, in the order of the request. A token without
    /// an entry, or one that an earlier request of the same call has emptied, gets an
    /// empty bucket. A refused call changes nothing.
    pub fn withdraw_protocol_fees(&mut self, badges: &Vec<Address>, addresses: Vec<Address>) -> (
        outcome: Result<Vec<Bucket>, RegistryError>
    )
        ensures
            outcome is Ok <==> old(self)@.authorizes(badges@),
            match outcome {
                Ok(buckets) => {
                    &&& final(self)@ == (RegistryState {
                        protocol_fees: drained(old(self)@.protocol_fees, addresses@),
                        ..old(self)@
                    })
                    &&& buckets@.len() == addresses@.len()
                    &&& forall|i: int|
                        0 <= i < addresses@.len() ==> (#[trigger] buckets@[i]).resource_address()
                            == addresses@[i]
                    &&& forall|i: int|
                        0 <= i < addresses@.len() ==> (#[trigger] buckets@[i]).amount()
                            == withdrawn_at(old(self)@.protocol_fees, addresses@, i)
                    &&& forall|token: Address|
                        balance_of(final(self)@.protocol_fees, token) + #[trigger] carried(
                            buckets@,
                            token,
                            buckets@.len(),
                        ) == balance_of(old(self)@.protocol_fees, token)
                },
                Err(error) => error == RegistryError::Unauthorized && *final(self) == *old(self),
            },
            final(self)@.is_valid(),
    {
        self.config.recall_validity();
        if !self.is_owner(badges) {
            return Err(RegistryError::Unauthorized);
        }
        let buckets = self.protocol_fees.withdraw_all(addresses);
        Ok(buckets)
    }
}

} // verus!

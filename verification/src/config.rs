//! The registry's configuration and the rules it has to satisfy.

use vstd::prelude::*;

verus! {

/// Number of attos in one whole unit. Fractions and amounts are fixed-point numbers
/// counted in attos, that is in steps of 10^-18.
pub const ATTOS_PER_UNIT: i128 = 1_000_000_000_000_000_000;

/// The largest protocol fee share that a configuration may hold: 0.25, in attos.
pub const FEE_PROTOCOL_SHARE_MAX: i128 = 250_000_000_000_000_000;

/// Why a configuration is refused.
#[derive(Clone, Copy, Debug, PartialEq, Eq, Structural)]
pub enum ConfigError {
    /// The protocol fee share is negative or above [`FEE_PROTOCOL_SHARE_MAX`].
    FeeShareOutOfBounds,
    /// The number of sync slots is zero.
    ZeroSyncSlots,
    /// The sync period is zero.
    ZeroSyncPeriod,
    /// There are more sync slots than seconds in the sync period.
    SlotsExceedPeriod,
}

/// Whether a protocol fee share lies between zero and [`FEE_PROTOCOL_SHARE_MAX`].
pub open spec fn fee_share_within_bounds(fee_protocol_share: int) -> bool {
    0 <= fee_protocol_share <= FEE_PROTOCOL_SHARE_MAX
}

/// Whether the three parameters form a configuration that the registry accepts.
pub open spec fn config_is_valid(fee_protocol_share: int, sync_period: int, sync_slots: int) -> bool {
    &&& fee_share_within_bounds(fee_protocol_share)
    &&& 0 < sync_slots <= sync_period
}

/// The verdict on three parameters: the first rule they break, in the order
/// fee share, zero slots, zero period, slots above period; or nothing.
pub open spec fn config_verdict(fee_protocol_share: int, sync_period: int, sync_slots: int) -> Result<
    (),
    ConfigError,
> {
    if !fee_share_within_bounds(fee_protocol_share) {
        Err(ConfigError::FeeShareOutOfBounds)
    } else if sync_slots == 0 {
        Err(ConfigError::ZeroSyncSlots)
    } else if sync_period == 0 {
        Err(ConfigError::ZeroSyncPeriod)
    } else if sync_slots > sync_period {
        Err(ConfigError::SlotsExceedPeriod)
    } else {
        Ok(())
    }
}

/// Checks the three parameters of a configuration.
///
/// Succeeds exactly on the valid configurations; otherwise names the first broken rule.
pub fn assert_config(fee_protocol_share: i128, sync_period: u64, sync_slots: u64) -> (verdict: Result<
    (),
    ConfigError,
>)
    ensures
        verdict == config_verdict(fee_protocol_share as int, sync_period as int, sync_slots as int),
        verdict is Ok <==> config_is_valid(
            fee_protocol_share as int,
            sync_period as int,
            sync_slots as int,
        ),
{
    if fee_protocol_share < 0 || fee_protocol_share > FEE_PROTOCOL_SHARE_MAX {
        return Err(ConfigError::FeeShareOutOfBounds);
    }
    if sync_slots == 0 {
        return Err(ConfigError::ZeroSyncSlots);
    }
    if sync_period == 0 {
        return Err(ConfigError::ZeroSyncPeriod);
    }
    if sync_slots > sync_period {
        return Err(ConfigError::SlotsExceedPeriod);
    }
    Ok(())
}

/// A configuration is accepted exactly when the fee share lies in `[0, 0.25]` and the
/// slots in `[1, sync_period]`. Each error stands for one broken rule, and is given
/// exactly where that rule is the first one broken.
pub proof fn lemma_config_verdict(fee_protocol_share: int, sync_period: int, sync_slots: int)
    requires
        0 <= sync_period,
        0 <= sync_slots,
    ensures
        config_verdict(fee_protocol_share, sync_period, sync_slots) is Ok <==> (0
            <= fee_protocol_share <= FEE_PROTOCOL_SHARE_MAX && 1 <= sync_slots <= sync_period),
        config_verdict(fee_protocol_share, sync_period, sync_slots) == Err::<(), ConfigError>(
            ConfigError::FeeShareOutOfBounds,
        ) <==> (fee_protocol_share < 0 || fee_protocol_share > FEE_PROTOCOL_SHARE_MAX),
        config_verdict(fee_protocol_share, sync_period, sync_slots) == Err::<(), ConfigError>(
            ConfigError::ZeroSyncSlots,
        ) <==> (fee_share_within_bounds(fee_protocol_share) && sync_slots == 0),
        config_verdict(fee_protocol_share, sync_period, sync_slots) == Err::<(), ConfigError>(
            ConfigError::ZeroSyncPeriod,
        ) <==> (fee_share_within_bounds(fee_protocol_share) && sync_slots > 0 && sync_period == 0),
        config_verdict(fee_protocol_share, sync_period, sync_slots) == Err::<(), ConfigError>(
            ConfigError::SlotsExceedPeriod,
        ) <==> (fee_share_within_bounds(fee_protocol_share) && sync_period > 0 && sync_slots
            > sync_period),
{
}

/// With one slot, or with as many slots as the period has seconds, every positive
/// period and every fee share within bounds form a valid configuration.
pub proof fn lemma_extreme_slot_counts_are_valid(fee_protocol_share: int, sync_period: int)
    requires
        fee_share_within_bounds(fee_protocol_share),
        0 < sync_period,
    ensures
        config_is_valid(fee_protocol_share, sync_period, 1),
        config_is_valid(fee_protocol_share, sync_period, sync_period),
{
}

/// A configuration that has passed [`assert_config`].
#[derive(Clone, Copy, Debug)]
pub struct RegistryConfig {
    fee_protocol_share: i128,
    sync_period: u64,
    sync_slots: u64,
}

impl RegistryConfig {
    #[verifier::type_invariant]
    spec fn rules_hold(&self) -> bool {
        config_is_valid(
            self.fee_protocol_share as int,
            self.sync_period as int,
            self.sync_slots as int,
        )
    }

    /// The three parameters hold the configuration's rules. This is so of every
    /// configuration that a program holds.
    pub open spec fn is_valid(&self) -> bool {
        config_is_valid(
            self.spec_fee_protocol_share() as int,
            self.spec_sync_period() as int,
            self.spec_sync_slots() as int,
        )
    }

    /// The protocol fee share, in attos.
    pub closed spec fn spec_fee_protocol_share(&self) -> i128 {
        self.fee_protocol_share
    }

    /// The length of one scheduling cycle, in seconds.
    pub closed spec fn spec_sync_period(&self) -> u64 {
        self.sync_period
    }

    /// The number of slots a cycle is divided into.
    pub closed spec fn spec_sync_slots(&self) -> u64 {
        self.sync_slots
    }

    /// Makes a configuration from parameters that satisfy the rules, and refuses all others.
    pub fn new(fee_protocol_share: i128, sync_period: u64, sync_slots: u64) -> (made: Result<
        RegistryConfig,
        ConfigError,
    >)
        ensures
            made is Ok <==> config_is_valid(
                fee_protocol_share as int,
                sync_period as int,
                sync_slots as int,
            ),
            match made {
                Ok(config) => {
                    &&& config.is_valid()
                    &&& config.spec_fee_protocol_share() == fee_protocol_share
                    &&& config.spec_sync_period() == sync_period
                    &&& config.spec_sync_slots() == sync_slots
                },
                Err(error) => Err::<(), ConfigError>(error) == config_verdict(
                    fee_protocol_share as int,
                    sync_period as int,
                    sync_slots as int,
                ),
            },
    {
        match assert_config(fee_protocol_share, sync_period, sync_slots) {
            Ok(()) => Ok(RegistryConfig { fee_protocol_share, sync_period, sync_slots }),
            Err(error) => Err(error),
        }
    }

    /// Recalls that a configuration which a program holds is valid. Does nothing at run time.
    pub fn recall_validity(&self)
        ensures
            self.is_valid(),
    {
        proof {
            use_type_invariant(self);
        }
    }

    /// The protocol fee share, in attos.
    #[verifier::when_used_as_spec(spec_fee_protocol_share)]
    pub fn fee_protocol_share(&self) -> (share: i128)
        ensures
            share == self.spec_fee_protocol_share(),
            self.is_valid(),
    {
        proof {
            use_type_invariant(self);
        }
        self.fee_protocol_share
    }

    /// The length of one scheduling cycle, in seconds.
    #[verifier::when_used_as_spec(spec_sync_period)]
    pub fn sync_period(&self) -> (period: u64)
        ensures
            period == self.spec_sync_period(),
            self.is_valid(),
    {
        proof {
            use_type_invariant(self);
        }
        self.sync_period
    }

    /// The number of slots a cycle is divided into.
    #[verifier::when_used_as_spec(spec_sync_slots)]
    pub fn sync_slots(&self) -> (slots: u64)
        ensures
            slots == self.spec_sync_slots(),
            self.is_valid(),
    {
        proof {
            use_type_invariant(self);
        }
        self.sync_slots
    }
}

} // verus!

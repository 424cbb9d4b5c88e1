//! The slot scheduler: when a pool should synchronize next.
//!
//! Time is divided into cycles of `period` seconds that start at multiples of
//! `period`. Each cycle is divided into `slots` slots of `period / slots` seconds.
//! A pool always falls into the same slot, which its address decides.

use vstd::prelude::*;
use vstd::arithmetic::div_mod::lemma_fundamental_div_mod;
use vstd::arithmetic::div_mod::lemma_fundamental_div_mod_converse;
use crate::address::Address;
use crate::address::component_address_to_u64;
use crate::address::leading_u64;

verus! {

/// The slot of a pool: the leading number of its address, modulo the number of slots.
pub open spec fn slot_of(pool: Seq<u8>, slots: int) -> int {
    leading_u64(pool) % slots
}

/// The start of the cycle that `now` lies in.
pub open spec fn cycle_start(now: int, period: int) -> int {
    (now / period) * period
}

/// How far into each cycle the pool's slot begins.
pub open spec fn slot_offset(pool: Seq<u8>, period: int, slots: int) -> int {
    (period / slots) * slot_of(pool, slots)
}

/// The next synchronization time of a pool.
///
/// The candidate is the pool's slot in the cycle after the current one. Where that is
/// less than one period away, the slot one cycle later is taken.
pub open spec fn next_sync_time_at(pool: Seq<u8>, now: int, period: int, slots: int) -> int {
    let candidate = cycle_start(now, period) + slot_offset(pool, period, slots) + period;
    if candidate - now < period {
        candidate + period
    } else {
        candidate
    }
}

/// The current cycle has begun, and ends less than one period after its start.
pub proof fn lemma_cycle_start_bounds(now: int, period: int)
    requires
        0 <= now,
        0 < period,
    ensures
        0 <= cycle_start(now, period) <= now < cycle_start(now, period) + period,
        cycle_start(now, period) % period == 0,
{
    lemma_fundamental_div_mod(now, period);
    assert(period * (now / period) == (now / period) * period) by (nonlinear_arith);
    assert(((now / period) * period) % period == 0) by (nonlinear_arith)
        requires
            0 < period,
    ;
}

/// A slot begins within its cycle, also where the period is no multiple of the slot count.
pub proof fn lemma_slot_offset_bounds(pool: Seq<u8>, period: int, slots: int)
    requires
        0 < period,
        0 < slots,
    ensures
        0 <= slot_of(pool, slots) < slots,
        0 <= slot_offset(pool, period, slots) < period,
{
    let slot = slot_of(pool, slots);
    let width = period / slots;
    lemma_fundamental_div_mod(leading_u64(pool), slots);
    lemma_fundamental_div_mod(period, slots);
    assert(0 <= width * slot <= width * (slots - 1)) by (nonlinear_arith)
        requires
            0 <= width,
            0 <= slot <= slots - 1,
    ;
    assert(width * (slots - 1) == slots * width - width) by (nonlinear_arith);
    assert(0 <= width) by (nonlinear_arith)
        requires
            width == period / slots,
            0 < period,
            0 < slots,
    ;
    if width == 0 {
        assert(width * slot == 0) by (nonlinear_arith)
            requires
                width == 0,
        ;
    }
}

/// The next synchronization time is at least one period and less than two periods
/// away, and falls on the pool's slot offset within its cycle.
pub proof fn lemma_next_sync_time_bounds(pool: Seq<u8>, now: int, period: int, slots: int)
    requires
        0 <= now,
        0 < period,
        0 < slots,
    ensures
        period <= next_sync_time_at(pool, now, period, slots) - now < 2 * period,
        next_sync_time_at(pool, now, period, slots) % period == slot_offset(pool, period, slots),
{
    lemma_cycle_start_bounds(now, period);
    lemma_slot_offset_bounds(pool, period, slots);
    let offset = slot_offset(pool, period, slots);
    let time = next_sync_time_at(pool, now, period, slots);
    let cycles = now / period;
    let ahead: int = if cycle_start(now, period) + offset + period - now < period {
        2
    } else {
        1
    };
    assert(time == period * (cycles + ahead) + offset) by (nonlinear_arith)
        requires
            time == cycles * period + offset + ahead * period,
    ;
    lemma_fundamental_div_mod_converse(time, period, cycles + ahead, offset);
}

/// The next synchronization time is the only time in the window from one period ahead
/// to two periods ahead that falls on the pool's slot offset.
pub proof fn lemma_next_sync_time_unique(
    pool: Seq<u8>,
    now: int,
    period: int,
    slots: int,
    time: int,
)
    requires
        0 <= now,
        0 < period,
        0 < slots,
        period <= time - now < 2 * period,
        time % period == slot_offset(pool, period, slots),
    ensures
        time == next_sync_time_at(pool, now, period, slots),
{
    lemma_next_sync_time_bounds(pool, now, period, slots);
    let other = next_sync_time_at(pool, now, period, slots);
    lemma_fundamental_div_mod(time, period);
    lemma_fundamental_div_mod(other, period);
    let a = time / period;
    let b = other / period;
    assert(a == b) by (nonlinear_arith)
        requires
            0 < period,
            -period < period * a - period * b < period,
    ;
}

/// The schedule depends on nothing but the pool's bytes, the time and the two
/// parameters of the configuration: equal inputs give equal times.
pub proof fn lemma_next_sync_time_is_stable(
    pool: Address,
    same_pool: Address,
    now: int,
    period: int,
    slots: int,
)
    requires
        pool@ == same_pool@,
    ensures
        next_sync_time_at(pool@, now, period, slots) == next_sync_time_at(
            same_pool@,
            now,
            period,
            slots,
        ),
{
}

/// Computes the next synchronization time of a pool.
///
/// The time must fit in 64 bits, which it does as long as `now + 2 * period` does.
pub fn next_sync_time(pool_address: &Address, now: u64, period: u64, slots: u64) -> (time: u64)
    requires
        period > 0,
        slots > 0,
        next_sync_time_at(pool_address@, now as int, period as int, slots as int) <= u64::MAX,
    ensures
        time == next_sync_time_at(pool_address@, now as int, period as int, slots as int),
        period <= time - now < 2 * period,
        time % period == slot_offset(pool_address@, period as int, slots as int),
{
    proof {
        lemma_cycle_start_bounds(now as int, period as int);
        lemma_slot_offset_bounds(pool_address@, period as int, slots as int);
        lemma_next_sync_time_bounds(pool_address@, now as int, period as int, slots as int);
    }
    let slot = component_address_to_u64(pool_address) % slots;

    let nearest_past_global_cycle_time = (now / period) * period;
    let slot_offset = (period / slots) * slot;
    let next_sync_time = nearest_past_global_cycle_time + slot_offset + period;

    let time_to_next_sync = next_sync_time - now;
    if time_to_next_sync < period {
        return next_sync_time + period;
    }
    next_sync_time
}

/// Computes the next synchronization time of a pool, or nothing where that time does
/// not fit in 64 bits.
pub fn checked_next_sync_time(pool_address: &Address, now: u64, period: u64, slots: u64) -> (time:
    Option<u64>)
    requires
        period > 0,
        slots > 0,
    ensures
        time is Some <==> next_sync_time_at(pool_address@, now as int, period as int, slots as int)
            <= u64::MAX,
        time is Some ==> time->0 == next_sync_time_at(
            pool_address@,
            now as int,
            period as int,
            slots as int,
        ),
{
    proof {
        lemma_cycle_start_bounds(now as int, period as int);
        lemma_slot_offset_bounds(pool_address@, period as int, slots as int);
    }
    let slot = component_address_to_u64(pool_address) % slots;
    let cycle = (now / period) * period;
    let offset = (period / slots) * slot;
    let candidate = match cycle.checked_add(offset) {
        Some(start) => match start.checked_add(period) {
            Some(candidate) => candidate,
            None => {
                return None;
            },
        },
        None => {
            return None;
        },
    };
    if candidate - now < period {
        candidate.checked_add(period)
    } else {
        Some(candidate)
    }
}

/// A time two periods after `now` that fits in 64 bits leaves room for the schedule.
pub proof fn lemma_next_sync_time_fits(pool: Seq<u8>, now: int, period: int, slots: int)
    requires
        0 <= now,
        0 < period,
        0 < slots,
        now + 2 * period <= u64::MAX,
    ensures
        next_sync_time_at(pool, now, period, slots) < u64::MAX,
{
    lemma_next_sync_time_bounds(pool, now, period, slots);
}

} // verus!

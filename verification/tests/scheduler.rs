use registry::address::component_address_to_u64;
use registry::address::Address;
use registry::address::ADDRESS_LENGTH;
use registry::schedule::checked_next_sync_time;
use registry::schedule::next_sync_time;

fn pool(leading: [u8; 8]) -> Address {
    let mut bytes = [0xeeu8; 30];
    bytes[..8].copy_from_slice(&leading);
    Address::new(bytes)
}

fn pool_numbered(number: u64) -> Address {
    pool(number.to_be_bytes())
}

#[test]
fn test_address_has_thirty_bytes() {
    assert_eq!(ADDRESS_LENGTH, 30);
    let mut bytes = [0u8; 30];
    bytes[29] = 9;
    assert_eq!(Address::new(bytes).to_bytes(), bytes);
}

#[test]
fn test_addresses_are_equal_when_their_bytes_are() {
    let mut bytes = [1u8; 30];
    let first = Address::new(bytes);
    assert!(first == Address::new(bytes));
    bytes[29] = 2;
    assert!(first != Address::new(bytes));
    bytes[29] = 1;
    bytes[0] = 2;
    assert!(first != Address::new(bytes));
}

#[test]
fn test_component_address_to_u64_reads_big_endian() {
    let address = pool([0x01, 0x02, 0x03, 0x04, 0x05, 0x06, 0x07, 0x08]);
    assert_eq!(component_address_to_u64(&address), 0x0102_0304_0506_0708);
    assert_eq!(component_address_to_u64(&address), 72_623_859_790_382_856);
}

#[test]
fn test_component_address_to_u64_extremes() {
    assert_eq!(component_address_to_u64(&pool([0; 8])), 0);
    assert_eq!(component_address_to_u64(&pool([0xff; 8])), u64::MAX);
    assert_eq!(component_address_to_u64(&pool([0x80, 0, 0, 0, 0, 0, 0, 0])), 1 << 63);
    assert_eq!(component_address_to_u64(&pool([0, 0, 0, 0, 0, 0, 0, 1])), 1);
}

#[test]
fn test_component_address_to_u64_ignores_the_other_bytes() {
    let mut bytes = [0u8; 30];
    bytes[7] = 5;
    let first = Address::new(bytes);
    bytes[8] = 0xff;
    bytes[29] = 0xff;
    let second = Address::new(bytes);
    assert_eq!(component_address_to_u64(&first), 5);
    assert_eq!(component_address_to_u64(&second), 5);
}

#[test]
fn test_next_sync_time_adds_a_period_when_the_slot_is_too_close() {
    // slot 7 of 20, each 504 seconds wide: offset 3528 into cycles of 10080 seconds
    let time = next_sync_time(&pool_numbered(7), 1_700_000_000, 10080, 20);
    assert_eq!(time, 1_700_015_688);
}

#[test]
fn test_next_sync_time_keeps_the_candidate_when_it_is_far_enough() {
    let time = next_sync_time(&pool_numbered(7), 1_699_992_000, 10080, 20);
    assert_eq!(time, 1_700_005_608);
}

#[test]
fn test_next_sync_time_small_numbers() {
    // period 10, 3 slots of 3 seconds; pool 7 has slot 1 and offset 3
    let p = pool_numbered(7);
    assert_eq!(next_sync_time(&p, 0, 10, 3), 13);
    assert_eq!(next_sync_time(&p, 3, 10, 3), 13);
    assert_eq!(next_sync_time(&p, 4, 10, 3), 23);
    assert_eq!(next_sync_time(&p, 9, 10, 3), 23);
    assert_eq!(next_sync_time(&p, 13, 10, 3), 23);
    assert_eq!(next_sync_time(&p, 14, 10, 3), 33);
}

#[test]
fn test_next_sync_time_is_stable() {
    let p = pool([0x01, 0x02, 0x03, 0x04, 0x05, 0x06, 0x07, 0x08]);
    let first = next_sync_time(&p, 1_700_000_000, 10080, 20);
    let second = next_sync_time(&p, 1_700_000_000, 10080, 20);
    assert_eq!(first, second);
    assert_eq!(first, 1_700_010_144);
}

#[test]
fn test_next_sync_time_is_between_one_and_two_periods_ahead() {
    let periods: [u64; 5] = [1, 7, 60, 10080, 1_209_600];
    let nows: [u64; 6] = [0, 1, 59, 10079, 1_700_000_000, 1_700_003_527];
    for period in periods {
        for slots in [1, 2, 3, period / 2 + 1, period] {
            for now in nows {
                for number in [0u64, 7, 19, u64::MAX] {
                    let time = next_sync_time(&pool_numbered(number), now, period, slots);
                    assert!(period <= time - now && time - now < 2 * period);
                    assert_eq!(time % period, (period / slots) * (number % slots));
                    assert_eq!(
                        checked_next_sync_time(&pool_numbered(number), now, period, slots),
                        Some(time)
                    );
                }
            }
        }
    }
}

#[test]
fn test_next_sync_time_one_slot_and_one_slot_per_second() {
    let p = pool_numbered(7);
    assert_eq!(next_sync_time(&p, 1_700_000_000, 10080, 1), 1_700_012_160);
    assert_eq!(next_sync_time(&p, 1_700_000_000, 10080, 10080), 1_700_012_167);
    assert_eq!(next_sync_time(&p, 5, 1, 1), 6);
}

#[test]
fn test_next_sync_time_tolerates_more_slots_than_seconds() {
    // slots of no width: every pool has offset 0
    assert_eq!(next_sync_time(&pool_numbered(7), 25, 10, 20), 40);
    assert_eq!(next_sync_time(&pool_numbered(8), 20, 10, 20), 30);
}

#[test]
fn test_checked_next_sync_time_at_the_end_of_time() {
    let p = pool_numbered(0);
    assert_eq!(checked_next_sync_time(&p, u64::MAX, 1, 1), None);
    assert_eq!(checked_next_sync_time(&p, u64::MAX - 1, 1, 1), Some(u64::MAX));
    assert_eq!(checked_next_sync_time(&p, u64::MAX - 10, 10, 1), None);
    assert_eq!(checked_next_sync_time(&p, 1_700_000_000, u64::MAX, 1), None);
    assert_eq!(checked_next_sync_time(&p, 0, u64::MAX, 1), Some(u64::MAX));
}

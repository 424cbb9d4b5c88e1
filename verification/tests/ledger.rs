use registry::address::Address;
use registry::config::assert_config;
use registry::config::ConfigError;
use registry::config::RegistryConfig;
use registry::config::FEE_PROTOCOL_SHARE_MAX;
use registry::ledger::Bucket;
use registry::ledger::FeeLedger;

fn token(tag: u8) -> Address {
    let mut bytes = [0u8; 30];
    bytes[0] = 0x5d;
    bytes[15] = tag;
    Address::new(bytes)
}

fn amounts(buckets: &Vec<Bucket>) -> Vec<u128> {
    buckets.iter().map(|bucket| bucket.amount()).collect()
}

fn tokens(buckets: &Vec<Bucket>) -> Vec<Address> {
    buckets.iter().map(|bucket| bucket.resource_address()).collect()
}

#[test]
fn test_assert_config_accepts_the_whole_range() {
    assert_eq!(assert_config(0, 1, 1), Ok(()));
    assert_eq!(assert_config(FEE_PROTOCOL_SHARE_MAX, 1, 1), Ok(()));
    assert_eq!(assert_config(FEE_PROTOCOL_SHARE_MAX, u64::MAX, u64::MAX), Ok(()));
    assert_eq!(assert_config(1, u64::MAX, 1), Ok(()));
    assert_eq!(assert_config(100_000_000_000_000_000, 10080, 20), Ok(()));
}

#[test]
fn test_assert_config_names_the_first_broken_rule() {
    assert_eq!(assert_config(-1, 10, 5), Err(ConfigError::FeeShareOutOfBounds));
    assert_eq!(assert_config(i128::MIN, 10, 5), Err(ConfigError::FeeShareOutOfBounds));
    assert_eq!(
        assert_config(FEE_PROTOCOL_SHARE_MAX + 1, 10, 5),
        Err(ConfigError::FeeShareOutOfBounds)
    );
    assert_eq!(assert_config(i128::MAX, 0, 0), Err(ConfigError::FeeShareOutOfBounds));
    assert_eq!(assert_config(0, 0, 0), Err(ConfigError::ZeroSyncSlots));
    assert_eq!(assert_config(0, 10, 0), Err(ConfigError::ZeroSyncSlots));
    assert_eq!(assert_config(0, 0, 1), Err(ConfigError::ZeroSyncPeriod));
    assert_eq!(assert_config(0, 10, 11), Err(ConfigError::SlotsExceedPeriod));
    assert_eq!(assert_config(0, 1, u64::MAX), Err(ConfigError::SlotsExceedPeriod));
}

#[test]
fn test_registry_config_holds_what_it_was_made_with() {
    let config = RegistryConfig::new(7, 10080, 20).unwrap();
    assert_eq!(config.fee_protocol_share(), 7);
    assert_eq!(config.sync_period(), 10080);
    assert_eq!(config.sync_slots(), 20);
    assert_eq!(RegistryConfig::new(7, 20, 10080).err(), Some(ConfigError::SlotsExceedPeriod));
}

#[test]
fn test_bucket_carries_its_token_and_amount() {
    let empty = Bucket::new(token(1));
    assert_eq!(empty.resource_address(), token(1));
    assert_eq!(empty.amount(), 0);
    assert!(empty.is_empty());
    let bucket = Bucket::with_amount(token(2), 42);
    assert_eq!(bucket.resource_address(), token(2));
    assert_eq!(bucket.amount(), 42);
    assert!(!bucket.is_empty());
}

#[test]
fn test_new_ledger_is_empty() {
    let ledger = FeeLedger::new();
    assert!(!ledger.contains(&token(1)));
    assert_eq!(ledger.balance(&token(1)), 0);
}

#[test]
fn test_deposit_accumulates_per_token() {
    let mut ledger = FeeLedger::new();
    ledger.deposit(Bucket::with_amount(token(1), 10));
    ledger.deposit(Bucket::with_amount(token(2), 5));
    ledger.deposit(Bucket::with_amount(token(1), 32));
    assert_eq!(ledger.balance(&token(1)), 42);
    assert_eq!(ledger.balance(&token(2)), 5);
    assert_eq!(ledger.balance(&token(3)), 0);
    assert!(ledger.contains(&token(1)));
    assert!(ledger.contains(&token(2)));
    assert!(!ledger.contains(&token(3)));
}

#[test]
fn test_deposit_of_nothing_changes_no_balance() {
    let mut ledger = FeeLedger::new();
    ledger.deposit(Bucket::with_amount(token(1), 10));
    ledger.deposit(Bucket::new(token(1)));
    ledger.deposit(Bucket::new(token(2)));
    assert_eq!(ledger.balance(&token(1)), 10);
    assert_eq!(ledger.balance(&token(2)), 0);
    assert!(ledger.contains(&token(2)));
}

#[test]
fn test_deposit_up_to_the_largest_amount() {
    let mut ledger = FeeLedger::new();
    ledger.deposit(Bucket::with_amount(token(1), u128::MAX - 1));
    assert!(ledger.can_deposit(&Bucket::with_amount(token(1), 1)));
    assert!(!ledger.can_deposit(&Bucket::with_amount(token(1), 2)));
    assert!(ledger.can_deposit(&Bucket::with_amount(token(2), u128::MAX)));
    ledger.deposit(Bucket::with_amount(token(1), 1));
    assert_eq!(ledger.balance(&token(1)), u128::MAX);
    assert!(ledger.can_deposit(&Bucket::new(token(1))));
    assert!(!ledger.can_deposit(&Bucket::with_amount(token(1), 1)));
}

#[test]
fn test_withdraw_all_follows_the_request() {
    let mut ledger = FeeLedger::new();
    ledger.deposit(Bucket::with_amount(token(1), 10));
    ledger.deposit(Bucket::with_amount(token(2), 20));
    ledger.deposit(Bucket::with_amount(token(3), 30));
    let buckets = ledger.withdraw_all(vec![token(3), token(1)]);
    assert_eq!(tokens(&buckets), vec![token(3), token(1)]);
    assert_eq!(amounts(&buckets), vec![30, 10]);
    assert_eq!(ledger.balance(&token(1)), 0);
    assert_eq!(ledger.balance(&token(2)), 20);
    assert_eq!(ledger.balance(&token(3)), 0);
}

#[test]
fn test_withdraw_all_of_a_token_never_deposited() {
    let mut ledger = FeeLedger::new();
    ledger.deposit(Bucket::with_amount(token(1), 10));
    let buckets = ledger.withdraw_all(vec![token(9)]);
    assert_eq!(tokens(&buckets), vec![token(9)]);
    assert_eq!(amounts(&buckets), vec![0]);
    assert!(!ledger.contains(&token(9)));
    assert_eq!(ledger.balance(&token(1)), 10);
}

#[test]
fn test_withdraw_all_with_repeated_tokens() {
    let mut ledger = FeeLedger::new();
    ledger.deposit(Bucket::with_amount(token(1), 10));
    ledger.deposit(Bucket::with_amount(token(2), 20));
    let buckets = ledger.withdraw_all(vec![token(1), token(9), token(1), token(2), token(1)]);
    assert_eq!(tokens(&buckets), vec![token(1), token(9), token(1), token(2), token(1)]);
    assert_eq!(amounts(&buckets), vec![10, 0, 0, 20, 0]);
}

#[test]
fn test_withdraw_all_of_nothing() {
    let mut ledger = FeeLedger::new();
    ledger.deposit(Bucket::with_amount(token(1), 10));
    let buckets = ledger.withdraw_all(Vec::new());
    assert!(buckets.is_empty());
    assert_eq!(ledger.balance(&token(1)), 10);
}

#[test]
fn test_withdrawn_entry_stays_and_fills_again() {
    let mut ledger = FeeLedger::new();
    ledger.deposit(Bucket::with_amount(token(1), 10));
    let buckets = ledger.withdraw_all(vec![token(1)]);
    assert_eq!(amounts(&buckets), vec![10]);
    assert!(ledger.contains(&token(1)));
    assert_eq!(ledger.balance(&token(1)), 0);
    let buckets = ledger.withdraw_all(vec![token(1)]);
    assert_eq!(amounts(&buckets), vec![0]);
    ledger.deposit(Bucket::with_amount(token(1), 3));
    ledger.deposit(Bucket::with_amount(token(1), 4));
    let buckets = ledger.withdraw_all(vec![token(1)]);
    assert_eq!(amounts(&buckets), vec![7]);
}

#[test]
fn test_ledger_conserves_every_token() {
    let mut ledger = FeeLedger::new();
    let mut deposited = [0u128; 4];
    let mut withdrawn = [0u128; 4];
    let deposits: [(u8, u128); 8] =
        [(0, 5), (1, 7), (0, 11), (2, 13), (1, 0), (3, 17), (0, 19), (2, 23)];
    for (step, (tag, amount)) in deposits.into_iter().enumerate() {
        ledger.deposit(Bucket::with_amount(token(tag), amount));
        deposited[tag as usize] += amount;
        if step % 2 == 1 {
            let request = vec![token(tag), token((tag + 1) % 4), token(tag)];
            for bucket in ledger.withdraw_all(request) {
                let tag = bucket.resource_address().to_bytes()[15];
                withdrawn[tag as usize] += bucket.amount();
            }
        }
        for tag in 0..4u8 {
            assert_eq!(
                ledger.balance(&token(tag)),
                deposited[tag as usize] - withdrawn[tag as usize]
            );
        }
    }
    assert_eq!(deposited, [35, 7, 36, 17]);
    assert_eq!(withdrawn, [16, 7, 36, 17]);
}

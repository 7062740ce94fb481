use system_pallet::support::DispatchError;
use system_pallet::system::{AccountKey, Config, Counter, Pallet};

struct TestConfig;

impl Config for TestConfig {
    type AccountId = String;
    type BlockNumber = u32;
    type Nonce = u32;
}

struct NarrowConfig;

impl Config for NarrowConfig {
    type AccountId = String;
    type BlockNumber = u8;
    type Nonce = u8;
}

#[test]
fn init_system() {
    let mut system = Pallet::<TestConfig>::new();
    let _ = system.inc_block_number();
    let _ = system.inc_nonce(&"alice".to_string());

    assert_eq!(system.block_number(), 1);
    assert_eq!(system.nonce(&"alice".to_string()), Some(1));
    assert_eq!(system.nonce(&"bob".to_string()), None);
}

#[test]
fn fresh_state_is_empty() {
    let system = Pallet::<TestConfig>::new();
    assert_eq!(system.block_number(), 0);
    assert_eq!(system.nonce(&"alice".to_string()), None);
    assert_eq!(system.nonce(&"bob".to_string()), None);
    assert_eq!(system.nonce(&String::new()), None);
}

#[test]
fn advance_counts_calls() {
    let mut system = Pallet::<TestConfig>::new();
    for _ in 0..100 {
        assert_eq!(system.inc_block_number(), Ok(()));
    }
    assert_eq!(system.block_number(), 100);
}

#[test]
fn untouched_account_keeps_zero_default() {
    let mut system = Pallet::<TestConfig>::new();
    assert_eq!(system.nonce(&"alice".to_string()), None);
    assert_eq!(system.inc_nonce(&"bob".to_string()), Ok(()));
    assert_eq!(system.nonce(&"alice".to_string()), None);
}

#[test]
fn increments_count_per_account() {
    let mut system = Pallet::<TestConfig>::new();
    for _ in 0..10 {
        assert_eq!(system.inc_nonce(&"alice".to_string()), Ok(()));
    }
    assert_eq!(system.inc_nonce(&"bob".to_string()), Ok(()));
    assert_eq!(system.inc_nonce(&"bob".to_string()), Ok(()));
    assert_eq!(system.nonce(&"alice".to_string()), Some(10));
    assert_eq!(system.nonce(&"bob".to_string()), Some(2));
    assert_eq!(system.block_number(), 0);
}

#[test]
fn block_number_overflow_fails_and_preserves_state() {
    let mut system = Pallet::<NarrowConfig>::new();
    for _ in 0..u8::MAX {
        assert_eq!(system.inc_block_number(), Ok(()));
    }
    assert_eq!(system.block_number(), u8::MAX);
    assert_eq!(system.inc_block_number(), Err(DispatchError::Overflow));
    assert_eq!(system.block_number(), u8::MAX);
    assert_eq!(system.inc_block_number(), Err(DispatchError::Overflow));
    assert_eq!(system.block_number(), u8::MAX);
}

#[test]
fn nonce_overflow_fails_and_preserves_state() {
    let mut system = Pallet::<NarrowConfig>::new();
    for _ in 0..u8::MAX {
        assert_eq!(system.inc_nonce(&"alice".to_string()), Ok(()));
    }
    assert_eq!(system.nonce(&"alice".to_string()), Some(u8::MAX));
    assert_eq!(system.inc_nonce(&"alice".to_string()), Err(DispatchError::Overflow));
    assert_eq!(system.nonce(&"alice".to_string()), Some(u8::MAX));
    assert_eq!(system.inc_nonce(&"bob".to_string()), Ok(()));
    assert_eq!(system.nonce(&"bob".to_string()), Some(1));
    assert_eq!(system.nonce(&"alice".to_string()), Some(u8::MAX));
}

#[test]
fn counter_checked_arithmetic() {
    assert_eq!(<u32 as Counter>::zero(), 0);
    assert_eq!(<u32 as Counter>::one(), 1);
    assert_eq!(Counter::checked_add(7u32, 5u32), Some(12));
    assert_eq!(Counter::checked_add(u32::MAX, 1u32), None);
    assert_eq!(Counter::checked_add(u32::MAX, 0u32), Some(u32::MAX));
    assert_eq!(Counter::checked_sub(7u32, 5u32), Some(2));
    assert_eq!(Counter::checked_sub(0u32, 1u32), None);
    assert_eq!(Counter::checked_add(u8::MAX, 1u8), None);
    assert_eq!(Counter::checked_add(254u8, 1u8), Some(255));
    assert_eq!(Counter::checked_add(u64::MAX, 1u64), None);
    assert_eq!(Counter::checked_sub(u64::MAX, u64::MAX), Some(0));
}

#[test]
fn account_key_semantics() {
    let a = "alice".to_string();
    let a2 = "alice".to_string();
    let b = "bob".to_string();
    assert!(a.key_eq(&a2));
    assert!(!a.key_eq(&b));
    let c = a.key_clone();
    assert!(c.key_eq(&a));
    assert_eq!(c, "alice".to_string());
}

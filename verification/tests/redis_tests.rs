use magpie::redis_client::RedisEmulator;
use std::time::{Duration, Instant};

/// Waits until `d` has passed on the monotonic clock.
fn wait_for(d: Duration) {
    let start = Instant::now();
    while start.elapsed() < d {
        std::hint::spin_loop();
    }
}

#[test]
fn test_redis_emulator_basic() {
    let mut emu = RedisEmulator::new();
    assert!(!emu.key_exists("mykey"));
    assert_eq!(emu.get("mykey"), None);

    emu.set("mykey", "value1", None);
    assert!(emu.key_exists("mykey"));
    assert_eq!(emu.get("mykey"), Some("value1".to_string()));
}

#[test]
fn test_redis_emulator_delete() {
    let mut emu = RedisEmulator::new();
    emu.set("mykey", "val", None);
    assert!(emu.key_exists("mykey"));

    emu.delete("mykey");
    assert!(!emu.key_exists("mykey"));
    assert_eq!(emu.get("mykey"), None);
}

#[test]
fn test_redis_emulator_expiry() {
    let mut emu = RedisEmulator::new();
    emu.set("mykey", "val", Some(1));
    assert!(emu.key_exists("mykey"));

    wait_for(Duration::from_millis(1200));
    assert!(!emu.key_exists("mykey"));
    assert_eq!(emu.get("mykey"), None);
}

#[test]
fn test_redis_emulator_overwrite_clears_expiry() {
    let mut emu = RedisEmulator::new();
    emu.set("mykey", "val1", Some(1));
    emu.set("mykey", "val2", None);

    wait_for(Duration::from_millis(1200));
    assert!(emu.key_exists("mykey"));
    assert_eq!(emu.get("mykey"), Some("val2".to_string()));
}

#[test]
fn emulator_at_given_times() {
    let mut emu = RedisEmulator::new();
    let second: u128 = 1_000_000_000;
    emu.set_at("k", "v", Some(10), 0);
    assert_eq!(emu.get_at("k", 10 * second), Some("v".to_string()));
    assert!(emu.exists_at("k", 5 * second));
    assert_eq!(emu.get_at("k", 10 * second + 1), None);
    // The expired key was dropped: setting it again without expiry keeps it.
    emu.set_at("k", "w", None, 20 * second);
    assert_eq!(emu.get_at("k", 1_000_000 * second), Some("w".to_string()));
}

#[test]
fn emulator_caps_expiry_at_one_day() {
    let mut emu = RedisEmulator::new();
    let second: u128 = 1_000_000_000;
    emu.set_at("k", "v", Some(10 * 86400), 0);
    assert!(emu.exists_at("k", 86400 * second));
    assert!(!emu.exists_at("k", 86400 * second + 1));
}

#[test]
fn emulator_keeps_other_keys() {
    let mut emu = RedisEmulator::new();
    emu.set_at("a", "1", None, 0);
    emu.set_at("b", "2", None, 0);
    emu.delete("a");
    assert_eq!(emu.get_at("a", 0), None);
    assert_eq!(emu.get_at("b", 0), Some("2".to_string()));
}

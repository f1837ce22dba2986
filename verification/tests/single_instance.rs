use confui::single_instance::{acquire, format_hash, lock_file_name, path_hash, LockAttempt};

#[test]
fn format_hash_is_sixteen_lower_hex_digits() {
    assert_eq!(format_hash(0), "0000000000000000");
    assert_eq!(format_hash(0xdead_beef), "00000000deadbeef");
    assert_eq!(format_hash(u64::MAX), "ffffffffffffffff");
    assert_eq!(format_hash(0x0123_4567_89ab_cdef), format!("{:016x}", 0x0123_4567_89ab_cdefu64));
}

#[test]
fn path_hash_is_stable_and_distinguishes_paths() {
    let a = path_hash(b"/home/user/app/config.toml");
    let b = path_hash(b"/home/user/app/config.toml");
    let c = path_hash(b"/home/user/other/config.toml");
    assert_eq!(a, b);
    assert_ne!(a, c);
    assert_eq!(a.len(), 16);
    assert!(a.chars().all(|ch| ch.is_ascii_hexdigit() && !ch.is_ascii_uppercase()));
}

#[test]
fn lock_file_name_wraps_hash() {
    assert_eq!(lock_file_name("00000000deadbeef"), "settings-00000000deadbeef.lock");
}

#[test]
fn acquire_refuses_only_when_held_elsewhere() {
    assert!(acquire(LockAttempt::Acquired));
    assert!(acquire(LockAttempt::Unavailable));
    assert!(!acquire(LockAttempt::HeldElsewhere));
}

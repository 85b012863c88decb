use os_sync::sem::mac;
use os_sync::sem::win32;
use os_sync::sem::Attempt;

#[test]
fn win32_count_must_fit_a_signed_count() {
    assert_eq!(win32::count_for(0), Some(0));
    assert_eq!(win32::count_for(7), Some(7));
    assert_eq!(win32::count_for(i32::MAX as u32), Some(i32::MAX));
    assert_eq!(win32::count_for(i32::MAX as u32 + 1), None);
    assert_eq!(win32::count_for(u32::MAX), None);
}

#[test]
fn win32_wait_codes() {
    assert_eq!(win32::read_wait(win32::WAIT_OBJECT_0), Attempt::Acquired);
    assert_eq!(win32::read_wait(win32::WAIT_TIMEOUT), Attempt::Unavailable);
    assert_eq!(win32::read_wait(0x80), Attempt::Unexpected);
    assert_eq!(win32::read_wait(0xFFFF_FFFF), Attempt::Unexpected);
    assert_eq!(win32::WAIT_TIMEOUT, 258);
}

#[test]
fn win32_post_found_a_sleeper_when_released_from_zero() {
    assert!(win32::woke_sleeper(1, 0));
    assert!(!win32::woke_sleeper(1, 3));
    assert!(!win32::woke_sleeper(0, 0));
}

#[test]
fn win32_timeout_rounds_up_and_always_ends() {
    assert_eq!(win32::timeout_millis(0, 0), 0);
    assert_eq!(win32::timeout_millis(0, 1), 1);
    assert_eq!(win32::timeout_millis(0, 1_000_000), 1);
    assert_eq!(win32::timeout_millis(0, 1_000_001), 2);
    assert_eq!(win32::timeout_millis(2, 500_000_000), 2_500);
    assert_eq!(win32::timeout_millis(4_294_967, 294_000_000), 4_294_967_294);
    assert_eq!(win32::timeout_millis(4_294_967, 295_000_000), 4_294_967_294);
    assert_eq!(win32::timeout_millis(4_294_967, 293_000_000), 4_294_967_293);
    assert_eq!(win32::timeout_millis(u64::MAX, 0), win32::INFINITE - 1);
    assert_eq!(win32::timeout_millis(0, u32::MAX), 4_295);
}

#[test]
fn mac_semaphore_exists_on_success() {
    assert!(mac::created(mac::KERN_SUCCESS));
    assert!(!mac::created(mac::KERN_ABORTED));
    assert!(!mac::created(5));
}

#[test]
fn mac_wait_codes() {
    assert_eq!(mac::read_wait(0), Attempt::Acquired);
    assert_eq!(mac::read_wait(49), Attempt::Unavailable);
    assert_eq!(mac::read_wait(14), Attempt::Interrupted);
    assert_eq!(mac::read_wait(4), Attempt::Unexpected);
    assert_eq!(mac::read_wait(-1), Attempt::Unexpected);
}

#[test]
fn mac_span_keeps_what_fits() {
    assert_eq!(mac::span(0, 0), mac::Span { sec: 0, nsec: 0 });
    assert_eq!(mac::span(3, 250), mac::Span { sec: 3, nsec: 250 });
    assert_eq!(mac::span(1, 1_500_000_000), mac::Span { sec: 2, nsec: 500_000_000 });
    assert_eq!(mac::span(u32::MAX as u64, 5), mac::Span { sec: u32::MAX, nsec: 5 });
    assert_eq!(
        mac::span(u32::MAX as u64, 1_000_000_000),
        mac::Span { sec: u32::MAX, nsec: 999_999_999 }
    );
    assert_eq!(mac::span(u64::MAX, 0), mac::Span { sec: u32::MAX, nsec: 999_999_999 });
}

use std::time::Duration;

use suraft::base::leased::Leased;
use suraft::base::text::{decimal_string, push_duration};

fn duration(ms: u64) -> String {
    let mut s = String::new();
    push_duration(&mut s, ms);
    s
}

#[test]
fn duration_text_matches_std_debug() {
    for ms in [0u64, 1, 5, 50, 150, 999, 1000, 1001, 1005, 1050, 1500, 2000, 61_230, 3_153_600_000_000] {
        assert_eq!(format!("{:?}", Duration::from_millis(ms)), duration(ms), "{}", ms);
    }
}

#[test]
fn decimal_rendering() {
    assert_eq!("0", decimal_string(0));
    assert_eq!("18446744073709551615", decimal_string(u64::MAX));
}

#[test]
fn leased_expiry_and_touch() {
    let mut l = Leased::new(100, 50, 7u64);
    assert_eq!((Some(100), 50, true), l.lease_info());
    assert!(!l.is_expired(150, 0));
    assert!(l.is_expired(151, 0));
    assert!(!l.is_expired(160, 10));
    l.touch(200, 30);
    assert_eq!((Some(200), 30, true), l.lease_info());
    assert_eq!(7, *l.get());
    l.update(300, 5, 8);
    assert_eq!((Some(300), 5, true), l.lease_info());
    assert_eq!(8, l.into_inner());
    let d: Leased<u64> = Leased::default();
    assert!(d.is_expired(0, 0));
    assert_eq!((None, 0, true), d.lease_info());
}

#[test]
fn leased_display() {
    let l = Leased::new(100, 1500, 7u64);
    assert_eq!("7@100+1.5s(enabled)", l.display("7"));
    let d: Leased<u64> = Leased::default();
    assert_eq!("0(enabled)", d.display("0"));
    assert_eq!(
        "now: 120, last_update: 100(20ms ago), lease: 1.5s, expire at: 1600(1.48s since now)",
        l.display_lease_info(120)
    );
    assert_eq!(
        "now: 90, last_update: 100(0ns ago), lease: 1.5s, expire at: 1600(1.51s since now)",
        l.display_lease_info(90)
    );
    assert_eq!("last_update: None", d.display_lease_info(5));
}

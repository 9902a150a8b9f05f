use suraft::storage::log::log_id::{display_option_log_id, option_le, option_max, LogId, LogIdOptionExt};
use suraft::storage::log::log_index::{LogIndex, ParseIndexError};
use suraft::storage::path_config::PathConfig;
use suraft::testing::log_id;

#[test]
fn ordered_encode_prefixes_the_digit_count() {
    assert_eq!("01-0", LogIndex(0).ordered_encode());
    assert_eq!("01-9", LogIndex(9).ordered_encode());
    assert_eq!("02-10", LogIndex(10).ordered_encode());
    assert_eq!("20-18446744073709551615", LogIndex(u64::MAX).ordered_encode());
}

#[test]
fn ordered_decode_undoes_encode() {
    for n in [0u64, 1, 9, 10, 99, 100, 12345, u64::MAX] {
        let s = LogIndex(n).ordered_encode();
        assert_eq!(Ok(LogIndex(n)), LogIndex::ordered_decode(&s));
    }
}

#[test]
fn ordered_encoding_sorts_as_numbers() {
    let xs = [0u64, 5, 9, 10, 11, 99, 100, 1000, 65536, u64::MAX];
    for a in xs {
        for b in xs {
            let ea = LogIndex(a).ordered_encode();
            let eb = LogIndex(b).ordered_encode();
            assert_eq!(a < b, ea < eb, "{} {}", a, b);
        }
    }
}

#[test]
fn ordered_decode_reports_parse_errors() {
    assert_eq!(Err(ParseIndexError::Empty), LogIndex::ordered_decode("01-"));
    assert_eq!(Err(ParseIndexError::InvalidDigit), LogIndex::ordered_decode("01-1x"));
    assert_eq!(Err(ParseIndexError::InvalidDigit), LogIndex::ordered_decode("01--"));
    assert_eq!(Ok(LogIndex(7)), LogIndex::ordered_decode("01-+7"));
    assert_eq!(
        Err(ParseIndexError::PosOverflow),
        LogIndex::ordered_decode("20-18446744073709551616")
    );
}

#[test]
fn log_entry_paths_sort_by_index() {
    assert_eq!("/log/", PathConfig::log_prefix());
    assert_eq!("/log/01-5.entry", PathConfig::log_entry(5));
    assert_eq!("/log/03-123.entry", PathConfig::log_entry(123));
    assert!(PathConfig::log_entry(9) < PathConfig::log_entry(10));
    assert!(PathConfig::log_entry(10).starts_with(PathConfig::log_prefix()));
    assert_eq!("/meta/membership_config.json", PathConfig::membership_config());
    assert_eq!("/meta/last_log_path.json", PathConfig::last_log_path());
    assert_eq!("/meta/last_purged_log_path.json", PathConfig::last_purged_log_path());
}

#[test]
fn log_id_order_and_display() {
    assert_eq!("3.14", LogId::new(3, 14).display());
    assert_eq!("None", display_option_log_id(&None));
    assert_eq!("1.2", display_option_log_id(&Some(log_id(1, 2))));
    assert!(option_le(&None, &Some(log_id(0, 0))));
    assert!(option_le(&Some(log_id(1, 9)), &Some(log_id(2, 0))));
    assert!(!option_le(&Some(log_id(2, 1)), &Some(log_id(2, 0))));
    assert_eq!(Some(log_id(2, 1)), option_max(Some(log_id(2, 1)), Some(log_id(1, 5))));
    assert_eq!(Some(log_id(1, 5)), option_max(None, Some(log_id(1, 5))));
    assert_eq!(7, log_id(7, 1).term());
}

#[test]
fn log_id_option_ext() {
    let none: Option<LogId> = None;
    assert_eq!(None, none.index());
    assert_eq!(0, none.next_index());
    assert_eq!(0, none.next_term());
    assert_eq!(Some(4), Some(log_id(2, 4)).index());
    assert_eq!(5, Some(log_id(2, 4)).next_index());
    assert_eq!(3, Some(log_id(2, 4)).next_term());
    assert_eq!(5, log_id(2, 4).next_index());
}

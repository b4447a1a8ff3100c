use cosmic_sim::save::{
    api_key_from_file, days_to_ymd, mode_label, newest_first, sanitize_slot, save_file_name,
    timestamp_display,
};
use cosmic_sim::universe::galaxy::GalaxyMode;

#[test]
fn epoch_is_first_of_january_1970() {
    assert_eq!(days_to_ymd(0), (1970, 1, 1));
    assert_eq!(days_to_ymd(1), (1970, 1, 2));
}

#[test]
fn days_to_ymd_crosses_months_and_years() {
    assert_eq!(days_to_ymd(59), (1970, 3, 1));
    assert_eq!(days_to_ymd(365), (1971, 1, 1));
    assert_eq!(days_to_ymd(10957), (2000, 1, 1));
    assert_eq!(days_to_ymd(19802), (2024, 3, 20));
}

#[test]
fn days_to_ymd_handles_leap_days() {
    // 2000 is a leap year (divisible by 400); 2100 is not.
    assert_eq!(days_to_ymd(11016), (2000, 2, 29));
    assert_eq!(days_to_ymd(11017), (2000, 3, 1));
    assert_eq!(days_to_ymd(47482), (2100, 1, 1));
    assert_eq!(days_to_ymd(47482 + 58), (2100, 2, 28));
    assert_eq!(days_to_ymd(47482 + 59), (2100, 3, 1));
}

/// Each day maps to the next calendar date, for a stretch of 1200 years.
#[test]
fn days_to_ymd_walks_the_calendar_one_day_at_a_time() {
    fn leap(y: u64) -> bool {
        (y % 4 == 0 && y % 100 != 0) || y % 400 == 0
    }
    fn month_len(y: u64, m: u64) -> u64 {
        match m {
            2 => {
                if leap(y) {
                    29
                } else {
                    28
                }
            }
            4 | 6 | 9 | 11 => 30,
            _ => 31,
        }
    }
    let (mut y, mut m, mut d) = (1970u64, 1u64, 1u64);
    for days in 0..(1200u64 * 366) {
        assert_eq!(days_to_ymd(days), (y, m, d), "day {}", days);
        d += 1;
        if d > month_len(y, m) {
            d = 1;
            m += 1;
            if m > 12 {
                m = 1;
                y += 1;
            }
        }
    }
}

#[test]
fn days_to_ymd_at_the_largest_timestamp() {
    let (y, m, d) = days_to_ymd(u64::MAX / 86400);
    assert!(y > 500_000_000_000);
    assert!((1..=12).contains(&m));
    assert!((1..=31).contains(&d));
}

#[test]
fn timestamp_display_formats_utc() {
    assert_eq!(timestamp_display(0), "1970-01-01 00:00");
    assert_eq!(timestamp_display(1711029900), "2024-03-21 14:05");
    assert_eq!(timestamp_display(1711029959), "2024-03-21 14:05");
    assert_eq!(timestamp_display(951868799), "2000-02-29 23:59");
    assert_eq!(timestamp_display(4102444800), "2100-01-01 00:00");
}

#[test]
fn timestamp_display_prints_long_years_whole() {
    let s = timestamp_display(u64::MAX);
    assert!(s.len() > "YYYY-MM-DD HH:MM".len());
    assert_eq!(&s[s.len() - 6..s.len() - 5], " ");
    assert_eq!(&s[s.len() - 3..s.len() - 2], ":");
}

#[test]
fn sanitize_slot_replaces_unsafe_characters() {
    assert_eq!(sanitize_slot("Yael Orin"), "Yael_Orin");
    assert_eq!(sanitize_slot("../etc/passwd"), "___etc_passwd");
    assert_eq!(sanitize_slot("pilot-1_b"), "pilot-1_b");
    assert_eq!(sanitize_slot("Ωmega.é"), "Ωmega_é");
    assert_eq!(sanitize_slot(""), "");
}

#[test]
fn sanitize_slot_is_idempotent() {
    for s in ["a b/c", "Ωmega.é", "x?y*z", ""] {
        let once = sanitize_slot(s);
        assert_eq!(sanitize_slot(&once), once);
    }
}

#[test]
fn save_file_name_appends_json() {
    assert_eq!(save_file_name("My Save"), "My_Save.json");
}

#[test]
fn api_key_file_is_trimmed_and_blank_is_none() {
    assert_eq!(api_key_from_file("  SECRET-REDACTED\n"), Some("SECRET-REDACTED".to_string()));
    assert_eq!(api_key_from_file(" \t\n"), None);
    assert_eq!(api_key_from_file(""), None);
}

#[test]
fn api_key_round_trip() {
    let key = "  \u{3000}key-123 \n";
    let stored = cosmic_sim::text::trim(key);
    assert_eq!(api_key_from_file(&stored), Some(stored.clone()));
    assert_eq!(stored, key.trim());
}

#[test]
fn mode_labels() {
    assert_eq!(mode_label(GalaxyMode::RealUniverse), "Real Universe");
    assert_eq!(mode_label(GalaxyMode::Procedural), "Procedural");
}

#[test]
fn saves_are_listed_newest_first() {
    assert_eq!(newest_first(&vec![]), Vec::<usize>::new());
    assert_eq!(newest_first(&vec![10, 30, 20]), vec![1, 2, 0]);
}

#[test]
fn saves_with_equal_timestamps_keep_their_order() {
    assert_eq!(newest_first(&vec![5, 9, 5, 9, 1]), vec![1, 3, 0, 2, 4]);
}

#[test]
fn listing_order_matches_a_stable_sort() {
    let stamps: Vec<u64> = (0..60u64).map(|i| (i * 7919) % 13).collect();
    let mut expected: Vec<usize> = (0..stamps.len()).collect();
    expected.sort_by(|&a, &b| stamps[b].cmp(&stamps[a]));
    assert_eq!(newest_first(&stamps), expected);
}

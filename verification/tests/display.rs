use std::time::Duration;

use mll::display::{DurationDisplayExt, MemoryDisplayExt, MemoryUnit};

#[test]
fn test_memory_display() {
    assert_eq!("0 bytes", 0.display_memory_in(MemoryUnit::Bytes).to_string());
    assert_eq!("1 byte", 1.display_memory_in(MemoryUnit::Bytes).to_string());
    assert_eq!("8 bytes", 8.display_memory_in(MemoryUnit::Bytes).to_string());
    assert_eq!("102641958912 bytes", 102641958912.display_memory_in(MemoryUnit::Bytes).to_string());

    assert_eq!("0.8 KiB", 819.display_memory_in(MemoryUnit::KiB).to_string());
    assert_eq!("1.3 KiB", 1380.display_memory_in(MemoryUnit::KiB).to_string());
    assert_eq!("100236288.0 KiB", 102641958912.display_memory_in(MemoryUnit::KiB).to_string());

    assert_eq!("0.8 MiB", (819 * 1024).display_memory_in(MemoryUnit::MiB).to_string());
    assert_eq!("1.3 MiB", (1380 * 1024).display_memory_in(MemoryUnit::MiB).to_string());
    assert_eq!("97887.0 MiB", 102641958912.display_memory_in(MemoryUnit::MiB).to_string());

    assert_eq!("0.8 GiB", (819 * 1024 * 1024).display_memory_in(MemoryUnit::GiB).to_string());
    assert_eq!("1.3 GiB", (1380 * 1024 * 1024).display_memory_in(MemoryUnit::GiB).to_string());
    assert_eq!("95.6 GiB", 102641958912.display_memory_in(MemoryUnit::GiB).to_string());

    assert_eq!("819 bytes", 819.display_memory().to_string());
    assert_eq!("1.0 KiB", 1024.display_memory().to_string());
    assert_eq!("1023.0 KiB", (1024 * 1023).display_memory().to_string());
    assert_eq!("1.0 MiB", (1024 * 1024).display_memory().to_string());
    assert_eq!("1023.0 MiB", (1024 * 1024 * 1023).display_memory().to_string());
    assert_eq!("1.0 GiB", (1024 * 1024 * 1024).display_memory().to_string());
    assert_eq!("96.0 GiB", (96 * 1024 * 1024 * 1024).display_memory().to_string());

    assert_eq!("96.000 GiB", (96 * 1024 * 1024 * 1024).display_memory().to_string_with_precision(3));
}

#[test]
fn test_duration_display_imprecise_ago() {
    assert_eq!("just now", Duration::from_secs(0).display_imprecise_ago().to_string());
    assert_eq!("just now", Duration::from_millis(900).display_imprecise_ago().to_string());

    assert_eq!("1 second ago", Duration::from_secs(1).display_imprecise_ago().to_string());
    assert_eq!("1 second ago", Duration::from_millis(1_900).display_imprecise_ago().to_string());

    assert_eq!("2 seconds ago", Duration::from_secs(2).display_imprecise_ago().to_string());
    assert_eq!("28 seconds ago", Duration::from_millis(28_999).display_imprecise_ago().to_string());
    assert_eq!("59 seconds ago", Duration::from_millis(59_999).display_imprecise_ago().to_string());

    assert_eq!("1 minute ago", Duration::from_secs(60).display_imprecise_ago().to_string());
    assert_eq!("1 minute ago", Duration::from_secs(119).display_imprecise_ago().to_string());

    assert_eq!("2 minutes ago", Duration::from_secs(2 * 60).display_imprecise_ago().to_string());
    assert_eq!("28 minutes ago", Duration::from_secs(28 * 60 + 59).display_imprecise_ago().to_string());
    assert_eq!("59 minutes ago", Duration::from_secs(59 * 60 + 59).display_imprecise_ago().to_string());

    assert_eq!("1 hour ago", Duration::from_secs(3600).display_imprecise_ago().to_string());
    assert_eq!("1 hour ago", Duration::from_secs(7199).display_imprecise_ago().to_string());

    assert_eq!("2 hours ago", Duration::from_secs(2 * 3600).display_imprecise_ago().to_string());
    assert_eq!("28 hours ago", Duration::from_secs(28 * 3600 + 3599).display_imprecise_ago().to_string());
    assert_eq!("59 hours ago", Duration::from_secs(59 * 3600 + 3599).display_imprecise_ago().to_string());

    assert_eq!("100 hours ago", Duration::from_secs(100 * 3600).display_imprecise_ago().to_string());
    assert_eq!("1000 hours ago", Duration::from_secs(1000 * 3600).display_imprecise_ago().to_string());
}

#[test]
fn memory_display_rounds_ties_to_even() {
    // 0.25 KiB and 0.75 KiB are exact ties at one digit.
    assert_eq!("0.2 KiB", 256.display_memory_in(MemoryUnit::KiB).to_string());
    assert_eq!("0.8 KiB", 768.display_memory_in(MemoryUnit::KiB).to_string());
    // 0.5 KiB at no digits rounds to the even 0; 1.5 KiB to 2.
    assert_eq!("0 KiB", 512.display_memory_in(MemoryUnit::KiB).to_string_with_precision(0));
    assert_eq!("2 KiB", 1536.display_memory_in(MemoryUnit::KiB).to_string_with_precision(0));
}

#[test]
fn memory_display_carries_into_the_integer_part() {
    // 1023.96 KiB rounds up to 1024.0 KiB.
    assert_eq!("1024.0 KiB", 1048535.display_memory_in(MemoryUnit::KiB).to_string());
}

#[test]
fn memory_display_long_precision_is_exact() {
    assert_eq!("0.0009765625 KiB", 1.display_memory_in(MemoryUnit::KiB).to_string_with_precision(10));
    assert_eq!("0.00097656250000 KiB", 1.display_memory_in(MemoryUnit::KiB).to_string_with_precision(14));
}

#[test]
fn memory_display_matches_float_formatting_for_large_counts() {
    for &n in &[u64::MAX, u64::MAX - 1, (1u64 << 53) + 1, (1u64 << 60) + 12345, 123456789012345678] {
        for precision in [0usize, 1, 3, 7] {
            let expected = format!("{:.precision$} KiB", n as f64 / 1024_f64, precision = precision);
            assert_eq!(expected, n.display_memory_in(MemoryUnit::KiB).to_string_with_precision(precision));
            let expected = format!("{:.precision$} GiB", n as f64 / 1024_f64 / 1024_f64 / 1024_f64, precision = precision);
            assert_eq!(expected, n.display_memory_in(MemoryUnit::GiB).to_string_with_precision(precision));
        }
    }
}

#[test]
fn memory_display_unit_thresholds() {
    assert_eq!("1023 bytes", 1023.display_memory().to_string());
    assert_eq!("1024.0 KiB", (1024 * 1024 - 1).display_memory().to_string());
    assert_eq!("1024.0 MiB", (1024 * 1024 * 1024 - 1).display_memory().to_string());
}

#[test]
fn memory_display_matches_float_formatting_including_ties() {
    for n in 0u64..5000 {
        for precision in 0usize..5 {
            let expected = format!("{:.precision$} KiB", n as f64 / 1024_f64, precision = precision);
            assert_eq!(expected, n.display_memory_in(MemoryUnit::KiB).to_string_with_precision(precision));
        }
    }
    for &n in &[512u64 * 1024, 1536 * 1024, 2560 * 1024, 3 * 1024 * 1024 / 4 * 1024, 1024u64.pow(3) / 2, 5 * 1024u64.pow(3) / 2, 1024u64.pow(3) / 20] {
        for precision in 0usize..4 {
            let expected = format!("{:.precision$} MiB", n as f64 / 1024_f64 / 1024_f64, precision = precision);
            assert_eq!(expected, n.display_memory_in(MemoryUnit::MiB).to_string_with_precision(precision));
            let expected = format!("{:.precision$} GiB", n as f64 / 1024_f64 / 1024_f64 / 1024_f64, precision = precision);
            assert_eq!(expected, n.display_memory_in(MemoryUnit::GiB).to_string_with_precision(precision));
        }
    }
}

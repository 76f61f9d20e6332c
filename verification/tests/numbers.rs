use sysmon::fixed::{ratio_of, to_gib_tenths, to_mib_hundredths, GIB, MIB};
use sysmon::percent::{clamp, percent_text, share_of, usage_text, FULL};
use sysmon::text::{decimal_text, one_decimal_text, pad, two_decimals_text};

#[test]
fn clamp_confines_to_a_hundred_percent() {
    assert_eq!(FULL, 10_000);
    assert_eq!(clamp(0), 0);
    assert_eq!(clamp(1), 1);
    assert_eq!(clamp(9_999), 9_999);
    assert_eq!(clamp(10_000), 10_000);
    assert_eq!(clamp(10_001), 10_000);
    assert_eq!(clamp(u32::MAX), 10_000);
}

#[test]
fn share_in_hundredths_of_a_percent() {
    assert_eq!(share_of(1, 4), 2_500);
    assert_eq!(share_of(3, 4), 7_500);
    assert_eq!(share_of(1, 3), 3_333);
    assert_eq!(share_of(2, 3), 6_667);
    assert_eq!(share_of(0, 5), 0);
    assert_eq!(share_of(5, 5), 10_000);
}

#[test]
fn share_of_nothing_is_zero() {
    assert_eq!(share_of(0, 0), 0);
    assert_eq!(share_of(1, 0), 0);
    assert_eq!(share_of(u64::MAX, 0), 0);
}

#[test]
fn share_of_a_part_within_the_whole_is_within_a_hundred_percent() {
    assert_eq!(share_of(u64::MAX - 1, u64::MAX), 10_000);
    assert_eq!(share_of(u64::MAX, u64::MAX), 10_000);
    assert_eq!(share_of(u64::MAX / 2, u64::MAX), 5_000);
    assert_eq!(share_of(1, u64::MAX), 0);
}

#[test]
fn share_of_a_part_beyond_the_whole_is_beyond_a_hundred_percent() {
    assert_eq!(share_of(6, 5), 12_000);
    assert_eq!(share_of(2, 1), 20_000);
    assert_eq!(share_of(10, 3), 33_333);
    assert_eq!(share_of(u64::MAX, 1), u64::MAX as u128 * 10_000);
    assert_eq!(share_of(u64::MAX, 3), 61_489_146_912_365_172_050_000);
}

#[test]
fn ratio_rounds_to_the_nearest_with_ties_to_even() {
    // 1/8 = 12.5 hundredths, 3/8 = 37.5 hundredths.
    assert_eq!(ratio_of(1, 8, 100), 12);
    assert_eq!(ratio_of(3, 8, 100), 38);
    assert_eq!(ratio_of(1, 3, 1000), 333);
    assert_eq!(ratio_of(2, 3, 1000), 667);
    assert_eq!(ratio_of(1, 2, 1), 0);
    assert_eq!(ratio_of(1, 2, 3), 2);
    assert_eq!(ratio_of(5, 7, 0), 0);
    assert_eq!(ratio_of(u64::MAX - 1, u64::MAX, u32::MAX), u32::MAX as u128);
    assert_eq!(ratio_of(3, 2, 100), 150);
    assert_eq!(ratio_of(5, 2, 1), 2);
    assert_eq!(ratio_of(7, 2, 1), 4);
    assert_eq!(ratio_of(5, 0, 100), 0);
    assert_eq!(ratio_of(u64::MAX, 1, u32::MAX), u64::MAX as u128 * u32::MAX as u128);
}

#[test]
fn bytes_in_tenths_of_a_gibibyte() {
    assert_eq!(GIB, 1024 * 1024 * 1024);
    assert_eq!(to_gib_tenths(0), 0);
    assert_eq!(to_gib_tenths(GIB), 10);
    assert_eq!(to_gib_tenths(16 * GIB), 160);
    assert_eq!(to_gib_tenths(GIB + GIB / 2), 15);
    // 0.25 GiB is 2.5 tenths: the tie goes to the even 2.
    assert_eq!(to_gib_tenths(GIB / 4), 2);
    // 0.75 GiB is 7.5 tenths: the tie goes to the even 8.
    assert_eq!(to_gib_tenths(GIB / 4 * 3), 8);
    assert_eq!(to_gib_tenths(u64::MAX), 171_798_691_840);
}

#[test]
fn bytes_in_hundredths_of_a_mebibyte() {
    assert_eq!(MIB, 1024 * 1024);
    assert_eq!(to_mib_hundredths(0), 0);
    assert_eq!(to_mib_hundredths(MIB), 100);
    assert_eq!(to_mib_hundredths(MIB / 2), 50);
    // 0.125 MiB is 12.5 hundredths: the tie goes to the even 12.
    assert_eq!(to_mib_hundredths(MIB / 8), 12);
    assert_eq!(to_mib_hundredths(MIB / 8 * 3), 38);
    assert_eq!(to_mib_hundredths(123_456_789), 11_774);
    assert_eq!(to_mib_hundredths(u64::MAX), 1_759_218_604_441_600);
}

#[test]
fn decimal_text_of_numbers() {
    assert_eq!(decimal_text(0), "0");
    assert_eq!(decimal_text(7), "7");
    assert_eq!(decimal_text(9), "9");
    assert_eq!(decimal_text(10), "10");
    assert_eq!(decimal_text(1_234_567_890), "1234567890");
    assert_eq!(decimal_text(u64::MAX as u128), "18446744073709551615");
    assert_eq!(decimal_text(u128::MAX), "340282366920938463463374607431768211455");
    for n in [0u128, 5, 10, 99, 100, 101, 4096, 65_535, 1_000_000] {
        assert_eq!(decimal_text(n), n.to_string());
    }
}

#[test]
fn one_decimal_place() {
    assert_eq!(one_decimal_text(0), "0.0");
    assert_eq!(one_decimal_text(5), "0.5");
    assert_eq!(one_decimal_text(10), "1.0");
    assert_eq!(one_decimal_text(123), "12.3");
    assert_eq!(one_decimal_text(1000), "100.0");
}

#[test]
fn two_decimal_places() {
    assert_eq!(two_decimals_text(0), "0.00");
    assert_eq!(two_decimals_text(5), "0.05");
    assert_eq!(two_decimals_text(50), "0.50");
    assert_eq!(two_decimals_text(1234), "12.34");
    assert_eq!(two_decimals_text(100_000), "1000.00");
}

#[test]
fn pad_fills_on_the_right() {
    assert_eq!(pad(String::from("ab"), 5), "ab   ");
    assert_eq!(pad(String::from("abcde"), 5), "abcde");
    assert_eq!(pad(String::from("abcdef"), 5), "abcdef");
    assert_eq!(pad(String::new(), 2), "  ");
    assert_eq!(pad(String::from("x"), 0), "x");
    // Width counts characters, not bytes.
    assert_eq!(pad(String::from("héé"), 4), "héé ");
}

#[test]
fn usage_as_shown() {
    assert_eq!(percent_text(0), "0.0%");
    assert_eq!(percent_text(1_234), "12.3%");
    assert_eq!(percent_text(1_236), "12.4%");
    // Ties go to the even tenth.
    assert_eq!(percent_text(1_235), "12.4%");
    assert_eq!(percent_text(1_245), "12.4%");
    assert_eq!(percent_text(10_000), "100.0%");
    assert_eq!(percent_text(640_000), "6400.0%");
    assert_eq!(usage_text(995), "10.0");
    // 4294967295 hundredths are 429496729.5 tenths, which round to 429496730.
    assert_eq!(usage_text(u32::MAX), "42949673.0");
}

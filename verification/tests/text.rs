use media_pipeline::text::{
    chars_of, decimal_text, extension, parse_i32, parse_seconds, parse_u64, same_text,
    signed_decimal_text,
};

#[test]
fn same_text_compares_characters() {
    assert!(same_text("audio", "audio"));
    assert!(!same_text("audio", "Audio"));
    assert!(!same_text("audio", "audi"));
    assert!(same_text("", ""));
}

#[test]
fn chars_of_keeps_order_and_counts_characters() {
    assert_eq!(chars_of("a.b"), vec!['a', '.', 'b']);
    assert_eq!(chars_of("é1"), vec!['é', '1']);
    assert_eq!(chars_of(""), Vec::<char>::new());
}

#[test]
fn parse_u64_reads_digits() {
    assert_eq!(parse_u64("160000"), Some(160_000));
    assert_eq!(parse_u64("0"), Some(0));
    assert_eq!(parse_u64("007"), Some(7));
    assert_eq!(parse_u64("18446744073709551615"), Some(u64::MAX));
}

#[test]
fn parse_u64_rejects_everything_else() {
    assert_eq!(parse_u64(""), None);
    assert_eq!(parse_u64("12a"), None);
    assert_eq!(parse_u64("-1"), None);
    assert_eq!(parse_u64("+1"), None);
    assert_eq!(parse_u64(" 1"), None);
    assert_eq!(parse_u64("1.0"), None);
    assert_eq!(parse_u64("N/A"), None);
    assert_eq!(parse_u64("18446744073709551616"), None);
    assert_eq!(parse_u64("99999999999999999999999"), None);
    assert_eq!(parse_u64("١٢"), None);
}

#[test]
fn parse_i32_reads_an_optional_sign_and_digits() {
    assert_eq!(parse_i32("17"), Some(17));
    assert_eq!(parse_i32("-17"), Some(-17));
    assert_eq!(parse_i32("+17"), Some(17));
    assert_eq!(parse_i32("-0"), Some(0));
    assert_eq!(parse_i32("2147483647"), Some(i32::MAX));
    assert_eq!(parse_i32("-2147483648"), Some(i32::MIN));
}

#[test]
fn parse_i32_rejects_everything_else() {
    assert_eq!(parse_i32(""), None);
    assert_eq!(parse_i32("-"), None);
    assert_eq!(parse_i32("+"), None);
    assert_eq!(parse_i32("+-1"), None);
    assert_eq!(parse_i32("1-"), None);
    assert_eq!(parse_i32("2147483648"), None);
    assert_eq!(parse_i32("-2147483649"), None);
    assert_eq!(parse_i32("18446744073709551616"), None);
    assert_eq!(parse_i32("1 "), None);
}

#[test]
fn signed_decimal_text_writes_a_minus_sign() {
    assert_eq!(signed_decimal_text(0), "0");
    assert_eq!(signed_decimal_text(42), "42");
    assert_eq!(signed_decimal_text(-42), "-42");
    assert_eq!(signed_decimal_text(i64::MAX), "9223372036854775807");
    assert_eq!(signed_decimal_text(i64::MIN), "-9223372036854775808");
}

#[test]
fn parse_seconds_truncates_the_fraction() {
    assert_eq!(parse_seconds("60.024000"), Some(60));
    assert_eq!(parse_seconds("60"), Some(60));
    assert_eq!(parse_seconds("59.999"), Some(59));
    assert_eq!(parse_seconds("0.5"), Some(0));
    assert_eq!(parse_seconds("12."), Some(12));
}

#[test]
fn parse_seconds_rejects_what_is_not_a_decimal_number() {
    assert_eq!(parse_seconds(""), None);
    assert_eq!(parse_seconds(".5"), None);
    assert_eq!(parse_seconds("1.2.3"), None);
    assert_eq!(parse_seconds("1e3"), None);
    assert_eq!(parse_seconds("-1.0"), None);
    assert_eq!(parse_seconds("N/A"), None);
    assert_eq!(parse_seconds("1.5s"), None);
    assert_eq!(parse_seconds("18446744073709551616.0"), None);
}

#[test]
fn extension_is_what_follows_the_last_point_of_the_file_name() {
    assert_eq!(extension("/tmp/clip.mp4"), Some("mp4"));
    assert_eq!(extension("clip.tar.gz"), Some("gz"));
    assert_eq!(extension("/tmp/.tmpAbC123.mp4"), Some("mp4"));
    assert_eq!(extension("clip."), Some(""));
    assert_eq!(extension("/data/vidéo.webm"), Some("webm"));
}

#[test]
fn extension_is_absent_without_a_point_inside_the_file_name() {
    assert_eq!(extension("/tmp/clip"), None);
    assert_eq!(extension("/tmp/.hidden"), None);
    assert_eq!(extension("/tmp.d/clip"), None);
    assert_eq!(extension("/tmp/clip.mp4/"), None);
    assert_eq!(extension(""), None);
    assert_eq!(extension("."), None);
}

#[test]
fn decimal_text_writes_the_shortest_form() {
    assert_eq!(decimal_text(0), "0");
    assert_eq!(decimal_text(7), "7");
    assert_eq!(decimal_text(10), "10");
    assert_eq!(decimal_text(1_012_000), "1012000");
    assert_eq!(decimal_text(u64::MAX), "18446744073709551615");
}

#[test]
fn decimal_text_reads_back() {
    for n in [0u64, 9, 10, 99, 100, 128_000, 9_500_000, u64::MAX] {
        assert_eq!(parse_u64(&decimal_text(n)), Some(n));
    }
}

use sys_collector::collector::{convert_into_string_megabytes, size_exceeded_message};
use sys_collector::numfmt::{
    format_centi, format_centi_trimmed, parse_centi_u64, parse_dec_u64, u64_to_dec,
};
use sys_collector::rotation::{format_new_name, gen_backup_path};
use sys_collector::strutil::{join_with_sep, split_str, str_contains_sub, string_contains_char};

#[test]
fn format_centi_renders_two_decimals() {
    assert_eq!(format_centi(1250), "12.50");
    assert_eq!(format_centi(5), "0.05");
    assert_eq!(format_centi(0), "0.00");
    assert_eq!(format_centi(169999999900), "1699999999.00");
}

#[test]
fn format_centi_trimmed_drops_trailing_zeros() {
    assert_eq!(format_centi_trimmed(100), "1");
    assert_eq!(format_centi_trimmed(150), "1.5");
    assert_eq!(format_centi_trimmed(125), "1.25");
    assert_eq!(format_centi_trimmed(0), "0");
}

#[test]
fn u64_to_dec_renders_decimal() {
    assert_eq!(u64_to_dec(0), "0");
    assert_eq!(u64_to_dec(7), "7");
    assert_eq!(u64_to_dec(18446744073709551615), "18446744073709551615");
}

#[test]
fn parse_dec_accepts_digit_strings_only() {
    assert_eq!(parse_dec_u64("123"), Some(123));
    assert_eq!(parse_dec_u64("0"), Some(0));
    assert_eq!(parse_dec_u64(""), None);
    assert_eq!(parse_dec_u64("12a"), None);
    assert_eq!(parse_dec_u64("-5"), None);
    assert_eq!(parse_dec_u64("18446744073709551615"), Some(u64::MAX));
    assert_eq!(parse_dec_u64("18446744073709551616"), None);
}

#[test]
fn parse_centi_handles_optional_fraction() {
    assert_eq!(parse_centi_u64("16000"), Some(1600000));
    assert_eq!(parse_centi_u64("0.1"), Some(10));
    assert_eq!(parse_centi_u64("1699999999.00"), Some(169999999900));
    assert_eq!(parse_centi_u64("1."), Some(100));
    assert_eq!(parse_centi_u64("1.234"), Some(123));
    assert_eq!(parse_centi_u64("abc"), None);
    assert_eq!(parse_centi_u64("1.2.3"), None);
    assert_eq!(parse_centi_u64(".5"), None);
}

#[test]
fn parse_undoes_format() {
    for v in [0u64, 1, 99, 100, 101, 12345, 987654321] {
        assert_eq!(parse_centi_u64(&format_centi(v)), Some(v));
        assert_eq!(parse_centi_u64(&format_centi_trimmed(v)), Some(v));
    }
}

#[test]
fn megabytes_are_rounded_to_hundredths() {
    assert_eq!(convert_into_string_megabytes(0), "0.00");
    assert_eq!(convert_into_string_megabytes(1048576), "1.00");
    assert_eq!(convert_into_string_megabytes(16000 * 1048576), "16000.00");
    // half a mebibyte rounds to 0.50
    assert_eq!(convert_into_string_megabytes(524288), "0.50");
    // 0.005 MiB (5243 bytes scaled) rounds half up at the second decimal
    assert_eq!(convert_into_string_megabytes(5243), "0.01");
}

#[test]
fn size_message_renders_the_cap() {
    assert_eq!(
        size_exceeded_message(1048576),
        "Exceeded allowed data size - 1 MiB, consider to increase size limit, decrease interval or amount of logged data"
    );
}

#[test]
fn split_and_join_strings() {
    let parts = split_str("a,b,,c", ',');
    assert_eq!(parts, vec!["a", "b", "", "c"]);
    assert_eq!(split_str("", ','), vec![""]);
    assert_eq!(split_str("abc", ','), vec!["abc"]);
    let joined = join_with_sep(&vec!["x".to_string(), "y".to_string()], ";");
    assert_eq!(joined, "x;y");
}

#[test]
fn substring_search() {
    assert!(str_contains_sub("firefox --headless", "fox"));
    assert!(str_contains_sub("abc", ""));
    assert!(!str_contains_sub("abc", "abcd"));
    assert!(!str_contains_sub("firefox", "chrome"));
    assert!(string_contains_char("a=b", '='));
    assert!(!string_contains_char("ab", '='));
}

#[test]
fn backup_names_insert_suffix_before_extension() {
    assert_eq!(format_new_name("data.csv", "__1"), "data__1.csv");
    assert_eq!(format_new_name("data", "__2"), "data__2");
    assert_eq!(format_new_name("a.b.c", "__1"), "a.b__1.c");
    assert_eq!(gen_backup_path("system_data.csv", 3), "system_data__3.csv");
}

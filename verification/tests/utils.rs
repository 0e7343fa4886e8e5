use biliass::writer::utils::{push_decimal, push_signed_decimal, round_div};
use biliass::{ass_escape, convert_color, convert_timestamp};

#[test]
fn timestamp_of_zero() {
    assert_eq!(convert_timestamp(0), "0:00:00.00");
}

#[test]
fn timestamp_is_cut_not_rounded() {
    assert_eq!(convert_timestamp(61_236), "0:01:01.23");
    assert_eq!(convert_timestamp(9), "0:00:00.00");
    assert_eq!(convert_timestamp(19), "0:00:00.01");
    assert_eq!(convert_timestamp(999), "0:00:00.99");
}

#[test]
fn timestamp_fields_keep_their_width() {
    assert_eq!(convert_timestamp(1_000), "0:00:01.00");
    assert_eq!(convert_timestamp(59_990), "0:00:59.99");
    assert_eq!(convert_timestamp(60_000), "0:01:00.00");
    assert_eq!(convert_timestamp(3_599_999), "0:59:59.99");
    assert_eq!(convert_timestamp(3_600_000), "1:00:00.00");
    assert_eq!(convert_timestamp(3_723_450), "1:02:03.45");
}

#[test]
fn timestamp_hours_grow() {
    assert_eq!(convert_timestamp(36_000_000), "10:00:00.00");
    assert_eq!(convert_timestamp(360_000_000 + 61_230), "100:01:01.23");
    assert_eq!(convert_timestamp(u64::MAX), "5124095576030:25:51.61");
}

#[test]
fn color_is_reordered() {
    assert_eq!(convert_color(0x123456), "563412");
    assert_eq!(convert_color(0xFF0000), "0000FF");
    assert_eq!(convert_color(0x00FF00), "00FF00");
    assert_eq!(convert_color(0x0000FF), "FF0000");
}

#[test]
fn color_is_upper_case_and_padded() {
    assert_eq!(convert_color(0x0A0B0C), "0C0B0A");
    assert_eq!(convert_color(0xABCDEF), "EFCDAB");
    assert_eq!(convert_color(0x000000), "000000");
    assert_eq!(convert_color(0xFFFFFF), "FFFFFF");
    assert_eq!(convert_color(0x000001), "010000");
}

#[test]
fn color_ignores_high_bits() {
    assert_eq!(convert_color(0xFF123456), "563412");
}

#[test]
fn escape_leaves_plain_text() {
    assert_eq!(ass_escape(""), "");
    assert_eq!(ass_escape("hello, world"), "hello, world");
    assert_eq!(ass_escape("弹幕 ok"), "弹幕 ok");
}

#[test]
fn escape_braces_and_backslash() {
    assert_eq!(ass_escape("{"), "\\{");
    assert_eq!(ass_escape("}"), "\\}");
    assert_eq!(ass_escape("\\"), "\\\\");
    assert_eq!(ass_escape("{\\an8}x"), "\\{\\\\an8\\}x");
    assert_eq!(ass_escape("a{b}c\\d"), "a\\{b\\}c\\\\d");
}

#[test]
fn escape_line_breaks() {
    assert_eq!(ass_escape("a\nb"), "a\\Nb");
    assert_eq!(ass_escape("\n\n"), "\\N\\N");
    assert_eq!(ass_escape("é\n{ü}"), "é\\N\\{ü\\}");
}

#[test]
fn escaped_text_holds_no_bare_brace() {
    let samples = ["{{}}", "\\{", "a\\\nb{", "}\\\\{\n", "N\\N"];
    for sample in samples {
        let out: Vec<char> = ass_escape(sample).chars().collect();
        let mut i = 0;
        let mut back = String::new();
        while i < out.len() {
            if out[i] == '\\' {
                assert!(i + 1 < out.len());
                assert!(matches!(out[i + 1], '\\' | '{' | '}' | 'N'));
                back.push(if out[i + 1] == 'N' { '\n' } else { out[i + 1] });
                i += 2;
            } else {
                assert!(!matches!(out[i], '{' | '}' | '\n'));
                back.push(out[i]);
                i += 1;
            }
        }
        assert_eq!(back, sample);
    }
}

#[test]
fn decimal_digits() {
    let mut out = String::from("n=");
    push_decimal(&mut out, 0);
    out.push(' ');
    push_decimal(&mut out, 7);
    out.push(' ');
    push_decimal(&mut out, 10);
    out.push(' ');
    push_decimal(&mut out, 1_234_567_890);
    out.push(' ');
    push_decimal(&mut out, u128::MAX);
    assert_eq!(out, "n=0 7 10 1234567890 340282366920938463463374607431768211455");
}

#[test]
fn signed_decimal_digits() {
    let mut out = String::new();
    push_signed_decimal(&mut out, 0);
    out.push(' ');
    push_signed_decimal(&mut out, -1);
    out.push(' ');
    push_signed_decimal(&mut out, 42);
    out.push(' ');
    push_signed_decimal(&mut out, -2_147_483_648);
    out.push(' ');
    push_signed_decimal(&mut out, i128::MIN);
    assert_eq!(out, "0 -1 42 -2147483648 -170141183460469231731687303715884105728");
}

#[test]
fn rounding_goes_to_the_nearest() {
    assert_eq!(round_div(0, 25), 0);
    assert_eq!(round_div(12, 25), 0);
    assert_eq!(round_div(13, 25), 1);
    assert_eq!(round_div(36, 25), 1);
    assert_eq!(round_div(38, 25), 2);
    assert_eq!(round_div(204_000, 1000), 204);
}

#[test]
fn rounding_takes_a_tie_up() {
    assert_eq!(round_div(1, 2), 1);
    assert_eq!(round_div(5, 10), 1);
    assert_eq!(round_div(25_500, 1000), 26);
    assert_eq!(round_div(127_500, 1000), 128);
    assert_eq!(round_div(u64::MAX, 1), u64::MAX);
    assert_eq!(round_div(u64::MAX, u64::MAX), 1);
}

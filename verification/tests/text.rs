use siren::text::{
    chars_of, find_char, hex_text, parse_unsigned, push_decimal, replace_char, same_bytes,
    same_text, split_text, text_of,
};

fn decimal(n: u64) -> String {
    let mut s = String::new();
    push_decimal(&mut s, n);
    s
}

#[test]
fn decimal_has_no_leading_zero() {
    assert_eq!(decimal(0), "0");
    assert_eq!(decimal(9), "9");
    assert_eq!(decimal(10), "10");
    assert_eq!(decimal(1007), "1007");
    assert_eq!(decimal(u64::MAX), "18446744073709551615");
}

#[test]
fn decimal_is_appended() {
    let mut s = "port ".to_string();
    push_decimal(&mut s, 443);
    assert_eq!(s, "port 443");
}

#[test]
fn unsigned_numbers_are_read() {
    assert_eq!(parse_unsigned("0", 65535), Some(0));
    assert_eq!(parse_unsigned("65535", 65535), Some(65535));
    assert_eq!(parse_unsigned("+80", 65535), Some(80));
    assert_eq!(parse_unsigned("000000000000000000000000000080", 65535), Some(80));
    assert_eq!(parse_unsigned("18446744073709551615", u64::MAX), Some(u64::MAX));
    assert_eq!(parse_unsigned("7", 7), Some(7));
}

#[test]
fn what_is_no_unsigned_number_is_refused() {
    assert_eq!(parse_unsigned("", 65535), None);
    assert_eq!(parse_unsigned("+", 65535), None);
    assert_eq!(parse_unsigned("-1", 65535), None);
    assert_eq!(parse_unsigned("++1", 65535), None);
    assert_eq!(parse_unsigned("8 0", 65535), None);
    assert_eq!(parse_unsigned("65536", 65535), None);
    assert_eq!(parse_unsigned("18446744073709551616", u64::MAX), None);
    assert_eq!(parse_unsigned("99999999999999999999999", u64::MAX), None);
    assert_eq!(parse_unsigned("\u{663}", 65535), None);
    assert_eq!(parse_unsigned("8", 7), None);
}

#[test]
fn numbers_read_back_as_the_standard_library_reads_them() {
    for s in ["0", "00", "+5", "5+", "65535", "65536", "443", "-0", " 1", "1_0"] {
        assert_eq!(parse_unsigned(s, 65535), s.parse::<u16>().ok().map(|n| n as u64));
    }
}

#[test]
fn rendered_number_is_read_back() {
    for n in [0u64, 1, 9, 10, 99, 100, 65535, 1 << 40, u64::MAX] {
        assert_eq!(parse_unsigned(&decimal(n), u64::MAX), Some(n));
    }
}

#[test]
fn hex_is_lower_case_and_padded() {
    assert_eq!(hex_text(&[]), "");
    assert_eq!(hex_text(&[0x00, 0x0f, 0xa0, 0xff]), "000fa0ff");
}

#[test]
fn text_is_split_at_every_separator() {
    assert_eq!(split_text("SG", ','), vec!["SG"]);
    assert_eq!(split_text("SG,ID,", ','), vec!["SG", "ID", ""]);
    assert_eq!(split_text("", ','), vec![""]);
    assert_eq!(split_text(",,", ','), vec!["", "", ""]);
}

#[test]
fn split_pieces_join_to_the_text() {
    for s in ["a,b,c", ",", "", "no separator", "é,ü"] {
        assert_eq!(split_text(s, ',').join(","), s);
    }
}

#[test]
fn characters_and_ranges() {
    let v = chars_of("aé-1");
    assert_eq!(v, vec!['a', 'é', '-', '1']);
    assert_eq!(text_of(&v, 1, 3), "é-");
    assert_eq!(text_of(&v, 2, 2), "");
    assert_eq!(find_char(&v, '-'), 2);
    assert_eq!(find_char(&v, 'x'), 4);
}

#[test]
fn every_character_is_replaced() {
    assert_eq!(replace_char("1.2.3.4:443", ':', '-'), "1.2.3.4-443");
    assert_eq!(replace_char("::", ':', '-'), "--");
    assert_eq!(replace_char("", ':', '-'), "");
}

#[test]
fn equal_texts_and_bytes() {
    assert!(same_text("websocket", "websocket"));
    assert!(!same_text("websocket", "WebSocket"));
    assert!(same_bytes(&[1, 2], &[1, 2]));
    assert!(!same_bytes(&[1, 2], &[1, 3]));
    assert!(!same_bytes(&[1, 2], &[1]));
}

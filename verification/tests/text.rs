use nirikit::text::{decimal_string, parse_i32, parse_u32, parse_u8, str_eq};

#[test]
fn decimal_rendering() {
    assert_eq!(decimal_string(0), "0");
    assert_eq!(decimal_string(7), "7");
    assert_eq!(decimal_string(10), "10");
    assert_eq!(decimal_string(18446744073709551615), "18446744073709551615");
}

#[test]
fn unsigned_parsing_follows_std() {
    for s in ["0", "255", "256", "+5", "+", "-0", "", " 1", "1 ", "007", "12a"] {
        assert_eq!(parse_u8(s), s.parse::<u8>().ok(), "{s:?}");
        assert_eq!(parse_u32(s), s.parse::<u32>().ok(), "{s:?}");
    }
    for s in ["4294967295", "4294967296", "99999999999999999999"] {
        assert_eq!(parse_u32(s), s.parse::<u32>().ok(), "{s:?}");
    }
}

#[test]
fn signed_parsing_follows_std() {
    for s in ["0", "-0", "+0", "-", "+", "2147483647", "2147483648", "-2147483648", "-2147483649", "--1", "+-1", "12x"] {
        assert_eq!(parse_i32(s), s.parse::<i32>().ok(), "{s:?}");
    }
}

#[test]
fn rendering_reads_back() {
    for n in [0u64, 1, 9, 10, 99, 100, 255, 4294967295] {
        assert_eq!(parse_u32(&decimal_string(n)).map(u64::from), if n <= u32::MAX as u64 { Some(n) } else { None });
    }
}

#[test]
fn string_equality() {
    assert!(str_eq("é", "é"));
    assert!(!str_eq("a", "ab"));
    assert!(!str_eq("a", "A"));
}

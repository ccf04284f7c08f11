use gameboy_display::hex::{digit_value, parse_address, push_hex2, push_hex4};

#[test]
fn parse_address_accepts_hex_of_either_case() {
    assert_eq!(parse_address("0100"), Some(0x0100));
    assert_eq!(parse_address("ffff"), Some(0xffff));
    assert_eq!(parse_address("FFFF"), Some(0xffff));
    assert_eq!(parse_address("aB"), Some(0xab));
    assert_eq!(parse_address("0"), Some(0));
    assert_eq!(parse_address("00000001"), Some(1));
    assert_eq!(parse_address("+1"), Some(1));
}

#[test]
fn parse_address_rejects_what_from_str_radix_rejects() {
    assert_eq!(parse_address(""), None);
    assert_eq!(parse_address("+"), None);
    assert_eq!(parse_address("-1"), None);
    assert_eq!(parse_address("10000"), None);
    assert_eq!(parse_address("fffff"), None);
    assert_eq!(parse_address("0x10"), None);
    assert_eq!(parse_address(" 1"), None);
    assert_eq!(parse_address("1 "), None);
    assert_eq!(parse_address("g"), None);
    assert_eq!(parse_address("++1"), None);
    assert_eq!(parse_address("1_0"), None);
}

#[test]
fn parse_address_agrees_with_std() {
    for s in ["0", "1", "fF", "+7", "-", "", "12345", "0000ffff", "10000", "é", "zz", "+-1"] {
        assert_eq!(parse_address(s), u16::from_str_radix(s, 16).ok(), "{s:?}");
    }
}

#[test]
fn digit_values() {
    assert_eq!(digit_value('0'), Some(0));
    assert_eq!(digit_value('9'), Some(9));
    assert_eq!(digit_value('a'), Some(10));
    assert_eq!(digit_value('F'), Some(15));
    assert_eq!(digit_value('g'), None);
    assert_eq!(digit_value(' '), None);
}

#[test]
fn hex_writing_matches_format() {
    for v in [0u16, 1, 0x9, 0xa, 0x100, 0x1234, 0xabcd, 0xffff] {
        let mut s = String::from(">");
        push_hex4(&mut s, v);
        assert_eq!(s, format!(">{:04x}", v));
        assert_eq!(parse_address(&s[1..]), Some(v));
    }
    for v in [0u8, 7, 0x10, 0x9f, 0xff] {
        let mut s = String::new();
        push_hex2(&mut s, v);
        assert_eq!(s, format!("{:02x}", v));
    }
}

#[test]
fn every_formatting_of_an_address_reads_back() {
    for v in [0u16, 5, 0xa, 0x1f, 0x100, 0xbeef, 0xffff] {
        assert_eq!(parse_address(&format!("{:x}", v)), Some(v));
        assert_eq!(parse_address(&format!("{:X}", v)), Some(v));
        assert_eq!(parse_address(&format!("{:04x}", v)), Some(v));
        assert_eq!(parse_address(&format!("{:08X}", v)), Some(v));
    }
}

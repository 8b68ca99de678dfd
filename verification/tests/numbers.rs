use brazen::numbers::{decimal_string, hex_encode, parse_u64};

#[test]
fn decimal_text_parses_back() {
    for n in [0u64, 7, 10, 12345, u64::MAX] {
        let digits = decimal_string(n);
        assert_eq!(parse_u64(&digits), Some(n));
    }
    let text: Vec<char> = "18446744073709551616".chars().collect();
    assert_eq!(parse_u64(&text), None);
    let plus: Vec<char> = "+42".chars().collect();
    assert_eq!(parse_u64(&plus), Some(42));
    let empty: Vec<char> = Vec::new();
    assert_eq!(parse_u64(&empty), None);
}

#[test]
fn hex_is_lowercase_two_digits_per_byte() {
    assert_eq!(hex_encode(&[0x00, 0xab, 0x1f]), "00ab1f");
}

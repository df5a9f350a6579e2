use bletchmame::text::parse_i32;

#[test]
fn parse_i32_like_from_str() {
    for text in ["0", "42", "-17", "+8", "007", "2147483647", "-2147483648", "", "-", "+", " 1", "1 ", "12a", "2147483648", "-2147483649", "99999999999999999999", "--1"] {
        assert_eq!(text.parse::<i32>().ok(), parse_i32(text), "{text:?}");
    }
}

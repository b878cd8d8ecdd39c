use load_thing::text::{parse_i32, parse_u16, trim, u128_decimal};

fn chars(s: &str) -> Vec<char> {
    s.chars().collect()
}

#[test]
fn parse_u16_matches_std() {
    for s in ["0", "+7", "65535", "65536", "", "+", "-1", "007", "1a", " 1", "99999999999"] {
        assert_eq!(parse_u16(&chars(s)), s.parse::<u16>().ok(), "{s:?}");
    }
}

#[test]
fn parse_i32_matches_std() {
    for s in ["0", "-0", "+5", "-2147483648", "2147483647", "2147483648", "-2147483649", "-", "+", "--1", "x"] {
        assert_eq!(parse_i32(&chars(s)), s.parse::<i32>().ok(), "{s:?}");
    }
}

#[test]
fn trim_matches_std() {
    for s in ["  a b  ", "\u{3000}x\u{85}", "", "   ", "\u{200B}y"] {
        let t: String = trim(&chars(s)).into_iter().collect();
        assert_eq!(t, s.trim(), "{s:?}");
    }
}

#[test]
fn decimal_matches_format() {
    for n in [0u128, 9, 10, 1234567890, u128::MAX] {
        let d: String = u128_decimal(n).into_iter().collect();
        assert_eq!(d, n.to_string());
    }
}

#[test]
fn decimal_reads_back() {
    for p in [0u16, 7, 80, 9595, 65535] {
        assert_eq!(parse_u16(&u128_decimal(p as u128)), Some(p));
    }
    for n in [0i32, -1, 42, i32::MIN, i32::MAX] {
        let text: Vec<char> = n.to_string().chars().collect();
        assert_eq!(parse_i32(&text), Some(n));
    }
}

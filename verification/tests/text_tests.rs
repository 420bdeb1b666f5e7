use educlient::text::{
    chars_of, first_piece, i32_to_string, parse_i32, second_piece, str_eq, string_from_chars,
    strip_breaks,
};

fn chars(s: &str) -> Vec<char> {
    s.chars().collect()
}

#[test]
fn parse_i32_accepts_signed_decimals() {
    assert_eq!(parse_i32("42"), Some(42));
    assert_eq!(parse_i32("-7"), Some(-7));
    assert_eq!(parse_i32("+3"), Some(3));
    assert_eq!(parse_i32("007"), Some(7));
    assert_eq!(parse_i32("2147483647"), Some(i32::MAX));
    assert_eq!(parse_i32("-2147483648"), Some(i32::MIN));
    assert_eq!(parse_i32("00000000000000000012"), Some(12));
}

#[test]
fn parse_i32_refuses_what_std_refuses() {
    for s in ["", "-", "+", "x1", "1x", " 1", "1 ", "2147483648", "-2147483649", "1.5", "--1", "99999999999"] {
        assert_eq!(parse_i32(s), None, "{:?}", s);
        assert!(s.parse::<i32>().is_err());
    }
}

#[test]
fn parse_i32_agrees_with_std() {
    for s in ["0", "-0", "+0", "123456", "-98765", "+2147483647", "0002147483647"] {
        assert_eq!(parse_i32(s), s.parse::<i32>().ok(), "{:?}", s);
    }
}

#[test]
fn i32_to_string_writes_decimal() {
    assert_eq!(i32_to_string(0), "0");
    assert_eq!(i32_to_string(7), "7");
    assert_eq!(i32_to_string(-12), "-12");
    assert_eq!(i32_to_string(1000), "1000");
    assert_eq!(i32_to_string(i32::MIN), "-2147483648");
    assert_eq!(i32_to_string(i32::MAX), "2147483647");
}

#[test]
fn decimal_round_trip() {
    for n in [0, 1, -1, 9, 10, -10, 4096, i32::MIN, i32::MAX, 123456789] {
        assert_eq!(parse_i32(&i32_to_string(n)), Some(n));
    }
}

#[test]
fn strings_from_chars() {
    assert_eq!(string_from_chars(&chars("héllo")), "héllo");
    assert_eq!(string_from_chars(&[]), "");
    assert_eq!(chars_of("aé"), vec!['a', 'é']);
}

#[test]
fn string_equality() {
    assert!(str_eq("abc", "abc"));
    assert!(!str_eq("abc", "abd"));
    assert!(!str_eq("abc", "ab"));
    assert!(str_eq("", ""));
}

#[test]
fn split_pieces_match_std_split() {
    let cases = [
        ("a);b);c", ");"),
        ("no marker here", ");"),
        ("x(y(z", "("),
        ("((", "("),
        ("start(middle(end", "("),
    ];
    for (s, p) in cases {
        let pieces: Vec<&str> = s.split(p).collect();
        assert_eq!(first_piece(&chars(s), &chars(p)), pieces[0]);
        if pieces.len() > 1 {
            assert_eq!(second_piece(&chars(s), &chars(p)), pieces[1]);
        }
    }
}

#[test]
fn strip_breaks_removes_tabs_and_line_breaks() {
    let s = "a\tb\r\nc d";
    let stripped: String = strip_breaks(&chars(s)).into_iter().collect();
    assert_eq!(stripped, "abc d");
    assert_eq!(stripped, s.replace(['\t', '\r', '\n'], ""));
}

use macdisp::hertz::parse_hertz;
use macdisp::number::{parse_bool, parse_i32, parse_u32, push_decimal, push_signed};
use macdisp::text::{
    chars_of, contains, find_char, same_chars, strip_parens, whitespace, word_bounds,
};
use macdisp::Hertz;

fn chars(text: &str) -> Vec<char> {
    text.chars().collect()
}

#[test]
fn chars_of_keeps_every_character() {
    assert_eq!(chars_of("aé😀 z"), vec!['a', 'é', '😀', ' ', 'z']);
    assert_eq!(chars_of(""), Vec::<char>::new());
}

#[test]
fn whitespace_agrees_with_the_standard_library() {
    let mut code: u32 = 0;
    while code <= 0x11_0000 {
        if let Some(c) = char::from_u32(code) {
            assert_eq!(whitespace(c), c.is_whitespace(), "U+{:04X}", code);
        }
        code += 1;
    }
}

#[test]
fn unsigned_numbers_parse_like_the_standard_library() {
    let inputs = [
        "0", "7", "007", "+5", "-5", "", "+", "-", "4294967295", "4294967296", "99999999999999999999",
        "12a", " 1", "1 ", "1_000", "+-1", "++1", "٣",
    ];
    for input in inputs {
        assert_eq!(parse_u32(&chars(input)), input.parse::<u32>().ok(), "{:?}", input);
    }
}

#[test]
fn signed_numbers_parse_like_the_standard_library() {
    let inputs = [
        "0", "-0", "+0", "42", "-42", "+42", "", "+", "-", "2147483647", "2147483648",
        "-2147483648", "-2147483649", "--1", "1-", "0x10", "000000000000000000001",
    ];
    for input in inputs {
        assert_eq!(parse_i32(&chars(input)), input.parse::<i32>().ok(), "{:?}", input);
    }
}

#[test]
fn booleans_parse_like_the_standard_library() {
    for input in ["true", "false", "True", "TRUE", "", "t", "truee", "1", "yes"] {
        assert_eq!(parse_bool(&chars(input)), input.parse::<bool>().ok(), "{:?}", input);
    }
}

#[test]
fn refresh_rates_parse_to_millihertz() {
    let cases: [(&str, Option<u32>); 22] = [
        ("60", Some(60_000)),
        ("+60", Some(60_000)),
        ("59.94", Some(59_940)),
        ("59.95", Some(59_950)),
        ("59.8", Some(59_800)),
        ("23.976", Some(23_976)),
        ("23.9769", Some(23_976)),
        ("0", Some(0)),
        ("0.0004", Some(0)),
        (".5", Some(500)),
        ("5.", Some(5_000)),
        ("0060.10", Some(60_100)),
        ("4294967.295", Some(4_294_967_295)),
        ("4294967.296", None),
        ("5000000", None),
        (".", None),
        ("", None),
        ("+", None),
        ("-60", None),
        ("6e1", None),
        ("60.5.1", None),
        ("60,5", None),
    ];
    for (input, millis) in cases {
        assert_eq!(
            parse_hertz(&chars(input)),
            millis.map(|millis| Hertz { millis }),
            "{:?}",
            input
        );
    }
}

#[test]
fn decimals_are_written_like_the_standard_library() {
    for n in [0u64, 1, 9, 10, 11, 99, 100, 101, 4294967295, 18446744073709551615] {
        let mut out = String::from(">");
        push_decimal(&mut out, n);
        assert_eq!(out, format!(">{}", n));
    }
    for n in [0i64, -1, 1, -10, 2147483647, -2147483648, i64::MAX, i64::MIN] {
        let mut out = String::from(">");
        push_signed(&mut out, n);
        assert_eq!(out, format!(">{}", n));
    }
}

#[test]
fn written_numbers_read_back() {
    for n in [0u32, 5, 10, 1920, 4294967295] {
        let mut out = String::new();
        push_decimal(&mut out, n as u64);
        assert_eq!(parse_u32(&chars(&out)), Some(n));
    }
    for n in [0i32, -1, 100, -1920, i32::MAX, i32::MIN] {
        let mut out = String::new();
        push_signed(&mut out, n as i64);
        assert_eq!(parse_i32(&chars(&out)), Some(n));
    }
}

#[test]
fn find_char_gives_first_position_or_length() {
    assert_eq!(find_char(&chars("a:b:c"), ':'), 1);
    assert_eq!(find_char(&chars(":"), ':'), 0);
    assert_eq!(find_char(&chars("abc"), ':'), 3);
    assert_eq!(find_char(&chars(""), ':'), 0);
}

#[test]
fn strip_parens_matches_trim_matches() {
    for input in ["(1,2)", "1,2", "((1,2", "1,2))", ")(", "", "(", "a(b)c", "()a()"] {
        let expected: Vec<char> =
            input.trim_matches(|c| c == '(' || c == ')').chars().collect();
        let input_chars = chars(input);
        assert_eq!(strip_parens(&input_chars).to_vec(), expected, "{:?}", input);
        let once = strip_parens(&input_chars).to_vec();
        assert_eq!(strip_parens(&once).to_vec(), once, "{:?}", input);
    }
}

#[test]
fn contains_matches_the_standard_library() {
    let cases = [
        ("MacBook Pro", "MacBook"),
        ("Apple built-in", "built"),
        ("External", "built"),
        ("", ""),
        ("abc", ""),
        ("", "a"),
        ("aab", "ab"),
        ("ab", "abc"),
        ("xbuil", "built"),
    ];
    for (hay, needle) in cases {
        assert_eq!(contains(&chars(hay), &chars(needle)), hay.contains(needle), "{:?}", (hay, needle));
    }
}

#[test]
fn same_chars_compares_contents() {
    assert!(same_chars(&chars("abc"), &chars("abc")));
    assert!(!same_chars(&chars("abc"), &chars("abd")));
    assert!(!same_chars(&chars("abc"), &chars("ab")));
    assert!(same_chars(&chars(""), &chars("")));
}

#[test]
fn word_bounds_match_split_whitespace() {
    for input in ["", "   ", "a", " a ", "id:1 res:2x3", "\ta\n\nb  c\u{2003}d", "x\u{0085}y"] {
        let all = chars(input);
        let words: Vec<String> = word_bounds(&all)
            .into_iter()
            .map(|(from, to)| all[from..to].iter().collect())
            .collect();
        let expected: Vec<String> = input.split_whitespace().map(|w| w.to_string()).collect();
        assert_eq!(words, expected, "{:?}", input);
    }
}

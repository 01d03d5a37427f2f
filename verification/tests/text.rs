use lon::text::{
    chars_of, decimal, find_char, is_whitespace, lines, parse_u64, signed_decimal, split_once,
    str_lt, string_of, trim_end,
};

#[test]
fn lines_agree_with_std() {
    for s in [
        "",
        "\n",
        "a",
        "a\n",
        "a\nb",
        "a\r\nb\r\n",
        "a\rb\n",
        "a\r",
        "\r\n\r\n",
        "a\n\nb\n",
        "\r\r\n",
        "héllo\nwörld\n",
    ] {
        let expected: Vec<String> = s.lines().map(|l| l.to_string()).collect();
        assert_eq!(expected, lines(s), "lines of {:?}", s);
    }
}

#[test]
fn split_once_cuts_at_the_first_occurrence() {
    assert_eq!(
        Some(("a".to_string(), "b c".to_string())),
        split_once("a b c", ' ')
    );
    assert_eq!(Some(("".to_string(), "".to_string())), split_once(" ", ' '));
    assert_eq!(None, split_once("abc", ' '));
    assert_eq!(None, split_once("", ' '));
}

#[test]
fn trim_end_agrees_with_std() {
    for s in ["", " ", "a", "a \n", " a\t\r\n", "a\u{3000}\u{85}", "a b  ", "1745335431\n"] {
        assert_eq!(s.trim_end(), trim_end(s), "trim_end of {:?}", s);
    }
    for c in ['\t', ' ', '\u{a0}', '\u{2028}', 'a', '\u{200b}', '\u{1680}', '0'] {
        assert_eq!(c.is_whitespace(), is_whitespace(c), "is_whitespace of {:?}", c);
    }
}

#[test]
fn decimal_writes_numbers() {
    assert_eq!("0", decimal(0));
    assert_eq!("7", decimal(7));
    assert_eq!("10", decimal(10));
    assert_eq!("1745335431", decimal(1745335431));
    assert_eq!("18446744073709551615", decimal(u64::MAX));
    assert_eq!("-1", signed_decimal(-1));
    assert_eq!("128", signed_decimal(128));
    assert_eq!("-2147483648", signed_decimal(i32::MIN as i64));
    assert_eq!("-9223372036854775808", signed_decimal(i64::MIN));
    assert_eq!("9223372036854775807", signed_decimal(i64::MAX));
    assert_eq!("0", signed_decimal(0));
}

#[test]
fn parse_u64_agrees_with_std() {
    for s in [
        "0",
        "1745335431",
        "+5",
        "+",
        "",
        "-5",
        "12a",
        " 12",
        "18446744073709551615",
        "18446744073709551616",
        "99999999999999999999999",
        "007",
        "++1",
        "١٢",
    ] {
        assert_eq!(s.parse::<u64>().ok(), parse_u64(s), "parse of {:?}", s);
    }
    assert_eq!(Some(1745335431), parse_u64("1745335431"));
}

#[test]
fn str_lt_agrees_with_std() {
    let samples = ["", "a", "ab", "b", "B", "nixpkgs", "nixos", "é", "z", "\u{10000}", "\u{ffff}"];
    for a in samples {
        for b in samples {
            assert_eq!(a < b, str_lt(a, b), "{:?} < {:?}", a, b);
        }
    }
}

#[test]
fn chars_and_back() {
    let v = chars_of("héllo");
    assert_eq!(vec!['h', 'é', 'l', 'l', 'o'], v);
    assert_eq!("éll", string_of(&v, 1, 4));
    assert_eq!("", string_of(&v, 2, 2));
    assert_eq!(2, find_char(&v, 'l', 0));
    assert_eq!(3, find_char(&v, 'l', 3));
    assert_eq!(5, find_char(&v, 'x', 0));
}

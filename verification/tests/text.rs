use tpp_bot_beard::text::{
    append_decimal, chars_of, contains, join, le, replace, split, string_of, text_eq, trim,
    white_space,
};

fn cs(s: &str) -> Vec<char> {
    s.chars().collect()
}

fn st(v: &[char]) -> String {
    v.iter().collect()
}

const SAMPLES: [&str; 12] = [
    "",
    " ",
    "a",
    "  dark  magician \t\n",
    "\u{3000}wide\u{a0}",
    "a*b",
    "*",
    "**",
    "a**b*",
    " a * b ",
    "self-selfish self",
    "ÉCLAIR Ünder",
];

#[test]
fn chars_and_strings_round_trip() {
    for s in SAMPLES {
        assert_eq!(chars_of(s), cs(s));
        assert_eq!(string_of(&cs(s)), s);
    }
}

#[test]
fn text_eq_is_equality() {
    for a in SAMPLES {
        for b in SAMPLES {
            assert_eq!(text_eq(a, b), a == b);
        }
    }
}

#[test]
fn white_space_is_the_unicode_property() {
    for c in '\0'..=char::MAX {
        assert_eq!(white_space(c), c.is_whitespace(), "{:?}", c);
    }
}

#[test]
fn white_space_is_what_the_space_pattern_matches() {
    let re = regex::Regex::new(r"^\s$").unwrap();
    let mut buf = [0u8; 4];
    for c in '\0'..=char::MAX {
        assert_eq!(white_space(c), re.is_match(c.encode_utf8(&mut buf)), "{:?}", c);
    }
}

#[test]
fn trim_agrees_with_std() {
    for s in SAMPLES {
        assert_eq!(st(&trim(&cs(s))), s.trim());
    }
    assert_eq!(st(&trim(&cs("  a b  "))), "a b");
    assert_eq!(st(&trim(&cs("   "))), "");
}

#[test]
fn split_agrees_with_std() {
    for s in SAMPLES {
        let got: Vec<String> = split(&cs(s), '*').iter().map(|p| st(p)).collect();
        let want: Vec<String> = s.split('*').map(|p| p.to_string()).collect();
        assert_eq!(got, want);
    }
    let parts: Vec<String> = split(&cs("a**b*"), '*').iter().map(|p| st(p)).collect();
    assert_eq!(parts, vec!["a", "", "b", ""]);
    let parts: Vec<String> = split(&cs(""), '*').iter().map(|p| st(p)).collect();
    assert_eq!(parts, vec![""]);
}

#[test]
fn contains_agrees_with_std() {
    for hay in SAMPLES {
        for needle in SAMPLES {
            assert_eq!(contains(&cs(hay), &cs(needle)), hay.contains(needle));
        }
    }
    assert!(contains(&cs("dark magician"), &cs("k m")));
    assert!(contains(&cs("dark magician"), &cs("")));
    assert!(contains(&cs("dark magician"), &cs("dark magician")));
    assert!(!contains(&cs("dark magician"), &cs("dark magician ")));
    assert!(!contains(&cs(""), &cs("a")));
}

#[test]
fn le_agrees_with_std() {
    let mut samples: Vec<&str> = SAMPLES.to_vec();
    samples.extend(["Dark", "dark", "darker", "Z", "a\u{10000}", "a\u{ffff}", "é"]);
    for a in &samples {
        for b in &samples {
            assert_eq!(le(&cs(a), &cs(b)), a <= b, "{:?} {:?}", a, b);
        }
    }
}

#[test]
fn append_decimal_writes_the_numeral() {
    for n in [0u128, 1, 9, 10, 11, 99, 100, 101, 12345, u64::MAX as u128, u128::MAX] {
        let mut out = String::from("n=");
        append_decimal(&mut out, n);
        assert_eq!(out, format!("n={n}"));
    }
}

#[test]
fn replace_agrees_with_std() {
    for s in SAMPLES {
        for (from, to) in [("self", "Type"), ("*", ""), ("a", "aa"), ("**", "*"), ("  ", " ")] {
            assert_eq!(st(&replace(&cs(s), &cs(from), &cs(to))), s.replace(from, to));
        }
    }
    assert_eq!(st(&replace(&cs("aaa"), &cs("aa"), &cs("b"))), "ba");
    assert_eq!(st(&replace(&cs("selfself"), &cs("self"), &cs("Type"))), "TypeType");
}

#[test]
fn replace_of_nothing_changes_nothing() {
    assert_eq!(st(&replace(&cs("abc"), &cs(""), &cs("x"))), "abc");
}

#[test]
fn join_agrees_with_std() {
    let none: Vec<String> = vec![];
    assert_eq!(join(&none, ", "), "");
    let one = vec!["a".to_string()];
    assert_eq!(join(&one, ", "), "a");
    let three = vec!["a".to_string(), "".to_string(), "c".to_string()];
    assert_eq!(join(&three, "\n- "), "a\n- \n- c");
    assert_eq!(join(&three, "\n- "), three.join("\n- "));
}

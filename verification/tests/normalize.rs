use tpp_bot_beard::normalize::{
    normalize_all, normalize_search_term, DISALLOWED_PATTERN, SPACE_RUN_PATTERN,
};

#[test]
fn normalize_strips_punctuation_and_lowercases() {
    assert_eq!(
        normalize_search_term("Blue-Eyes: \"White\" Dragon!"),
        "blue-eyes white dragon"
    );
}

#[test]
fn normalize_removes_each_disallowed_character() {
    assert_eq!(normalize_search_term("a?b/c'd!e,f:g&h.i\"j"), "abcdefghij");
    for c in ['?', '/', '\'', '!', ',', ':', '&', '.', '"'] {
        assert_eq!(normalize_search_term(&format!("x{c}y")), "xy");
    }
}

#[test]
fn normalize_keeps_other_punctuation() {
    assert_eq!(normalize_search_term("A-B_C (D) *E* #1"), "a-b_c (d) *e* #1");
}

#[test]
fn normalize_lowercases_beyond_ascii() {
    assert_eq!(normalize_search_term("ÉCLAIR Ünder"), "éclair ünder");
}

#[test]
fn normalize_of_empty_and_of_punctuation_alone_is_empty() {
    assert_eq!(normalize_search_term(""), "");
    assert_eq!(normalize_search_term("?!.,"), "");
}

#[test]
fn normalize_is_idempotent_on_samples() {
    for s in [
        "",
        "Dark Magician",
        "Blue-Eyes: \"White\" Dragon!",
        "D/D/D Oracle King d'Arc",
        "ÉCLAIR Ünder",
        "ὈΔΥΣΣΕΎΣ",
        "İstanbul",
        "a * b",
        "?!.,",
    ] {
        let once = normalize_search_term(s);
        let twice = normalize_search_term(&once);
        assert_eq!(twice, once);
    }
}

#[test]
fn patterns_compile() {
    assert!(regex::Regex::new(DISALLOWED_PATTERN).is_ok());
    assert!(regex::Regex::new(SPACE_RUN_PATTERN).is_ok());
}

#[test]
fn normalize_all_normalizes_each_text() {
    let texts = vec!["Dark Magician!", "", "?!", "D/D/D"];
    assert_eq!(normalize_all(&texts), vec!["dark magician", "", "", "ddd"]);
    assert_eq!(normalize_all(&vec![]), Vec::<String>::new());
    for t in texts {
        assert_eq!(normalize_all(&vec![t]), vec![normalize_search_term(t)]);
    }
}

use tpp_bot_beard::card::{CardDatum, Embed};
use tpp_bot_beard::search::{
    autocomplete_search, filter_cards, get_reply, has_terms, inline_query, reply, terms,
    MAX_LISTED,
};

fn card(name: &str, desc: &str) -> CardDatum {
    CardDatum {
        name: name.to_string(),
        full_type: "Type".to_string(),
        race: "Race".to_string(),
        desc: desc.to_string(),
        frame_type: "effect".to_string(),
        archetype: String::new(),
        image_url: String::new(),
        ty: "self".to_string(),
        category: None,
        attribute: None,
        atk: None,
        def: None,
        number_value: None,
        level: None,
        linkval: None,
    }
}

fn cards() -> Vec<CardDatum> {
    vec![
        card("Dark Magician", "The ultimate wizard in terms of attack and defense."),
        card("Dark Magician Girl", "Gains 300 ATK for every \"Dark Magician\" in the GY."),
        card("Blue-Eyes White Dragon", "This legendary dragon is a powerful engine of destruction."),
        card("D/D/D Oracle King d'Arc", "Any effect that would inflict damage: gain LP instead."),
        card("Pot of Greed", "Draw 2 cards."),
    ]
}

fn names(found: &[CardDatum]) -> Vec<&str> {
    found.iter().map(|c| c.name.as_str()).collect()
}

fn plain(title: &str, description: &str) -> Embed {
    Embed {
        title: title.to_string(),
        description: description.to_string(),
        url: None,
        color: None,
        image: None,
        footer: None,
        fields: vec![],
    }
}

#[test]
fn terms_are_split_trimmed_and_normalized() {
    let got: Vec<String> = terms(" Dark * MAGICIAN!* ").iter().map(|t| t.iter().collect()).collect();
    assert_eq!(got, vec!["dark", "magician", ""]);
    let got: Vec<String> = terms("").iter().map(|t| t.iter().collect()).collect();
    assert_eq!(got, vec![""]);
}

#[test]
fn has_terms_needs_every_term() {
    let both = terms("dark*girl");
    assert!(has_terms("Dark Magician Girl", &both));
    assert!(!has_terms("Dark Magician", &both));
    assert!(has_terms("anything", &terms("")));
    assert!(has_terms("", &terms("")));
}

#[test]
fn absent_and_empty_queries_match_every_card() {
    let all = cards();
    assert_eq!(filter_cards(&all, None, None), all);
    assert_eq!(filter_cards(&all, Some(""), Some("")), all);
    assert_eq!(filter_cards(&all, Some("  "), Some("?!")), all);
    assert_eq!(filter_cards(&all, Some("*"), None), all);
}

#[test]
fn name_query_needs_every_sub_term() {
    let all = cards();
    assert_eq!(
        names(&filter_cards(&all, Some("dark"), None)),
        vec!["Dark Magician", "Dark Magician Girl"]
    );
    assert_eq!(names(&filter_cards(&all, Some("dark * girl"), None)), vec!["Dark Magician Girl"]);
    assert_eq!(names(&filter_cards(&all, Some("girl*dark"), None)), vec!["Dark Magician Girl"]);
    assert_eq!(names(&filter_cards(&all, Some("dark*dragon"), None)), Vec::<&str>::new());
}

#[test]
fn matching_ignores_case_and_punctuation() {
    let all = cards();
    assert_eq!(names(&filter_cards(&all, Some("DDD ORACLE"), None)), vec!["D/D/D Oracle King d'Arc"]);
    assert_eq!(names(&filter_cards(&all, Some("d/d/d"), None)), vec!["D/D/D Oracle King d'Arc"]);
    assert_eq!(names(&filter_cards(&all, Some("king darc"), None)), vec!["D/D/D Oracle King d'Arc"]);
    assert_eq!(names(&filter_cards(&all, None, Some("DAMAGE GAIN"))), vec!["D/D/D Oracle King d'Arc"]);
}

#[test]
fn name_and_effect_queries_must_both_hold() {
    let all = cards();
    assert_eq!(
        names(&filter_cards(&all, Some("magician"), Some("wizard"))),
        vec!["Dark Magician"]
    );
    assert_eq!(
        names(&filter_cards(&all, Some("magician"), Some("dark magician * gy"))),
        vec!["Dark Magician Girl"]
    );
    assert_eq!(names(&filter_cards(&all, Some("pot"), Some("wizard"))), Vec::<&str>::new());
}

#[test]
fn inner_white_space_of_a_term_counts() {
    let all = cards();
    assert_eq!(names(&filter_cards(&all, Some("dark  magician"), None)), Vec::<&str>::new());
}

#[test]
fn filter_of_no_cards_is_empty() {
    assert_eq!(filter_cards(&vec![], Some("x"), None), vec![]);
}

#[test]
fn no_match_says_so() {
    let got = get_reply(&cards(), Some("exodia"), None);
    assert_eq!(
        got,
        Some(plain("No cards found", "No cards were found that match the provided filters"))
    );
}

#[test]
fn one_match_shows_the_card() {
    let all = cards();
    let got = get_reply(&all, Some("pot"), None);
    assert_eq!(got, all[4].make_embed());
    assert_eq!(got.unwrap().title, "Pot of Greed");
}

#[test]
fn several_matches_are_listed_in_ascending_order() {
    let got = get_reply(&cards(), None, Some("a"));
    assert_eq!(
        got,
        Some(plain(
            "Multiple matches found",
            "Did you mean: \n- Blue-Eyes White Dragon\n- D/D/D Oracle King d'Arc\n- Dark Magician\n- Dark Magician Girl\n- Pot of Greed"
        ))
    );
    let got = get_reply(&cards(), Some("dark"), None);
    assert_eq!(
        got,
        Some(plain("Multiple matches found", "Did you mean: \n- Dark Magician\n- Dark Magician Girl"))
    );
}

#[test]
fn at_most_twenty_five_names_are_listed() {
    assert_eq!(MAX_LISTED, 25);
    let many: Vec<CardDatum> = (0..40).rev().map(|i| card(&format!("Card {i:02}"), "")).collect();
    let want: Vec<String> = (0..25).map(|i| format!("Card {i:02}")).collect();
    let got = reply(&many).unwrap();
    assert_eq!(got.title, "Multiple matches found");
    assert_eq!(got.description, format!("Did you mean: \n- {}", want.join("\n- ")));
    let exactly: Vec<CardDatum> = (0..25).rev().map(|i| card(&format!("Card {i:02}"), "")).collect();
    assert_eq!(reply(&exactly).unwrap().description, format!("Did you mean: \n- {}", want.join("\n- ")));
    let two: Vec<CardDatum> = vec![card("b", ""), card("a", "")];
    assert_eq!(reply(&two).unwrap().description, "Did you mean: \n- a\n- b");
}

#[test]
fn reply_branches_on_the_number_of_matches() {
    assert_eq!(reply(&vec![]).unwrap().title, "No cards found");
    assert_eq!(reply(&vec![card("Solo", "")]).unwrap().title, "Solo");
    assert_eq!(
        reply(&vec![card("Solo", ""), card("Solo", "")]).unwrap().description,
        "Did you mean: \n- Solo\n- Solo"
    );
}

#[test]
fn autocomplete_matches_raw_names_without_case() {
    let all = cards();
    assert_eq!(autocomplete_search(&all, "DARK"), vec!["Dark Magician", "Dark Magician Girl"]);
    assert_eq!(autocomplete_search(&all, "d/d"), vec!["D/D/D Oracle King d'Arc"]);
    assert_eq!(autocomplete_search(&all, "ddd"), Vec::<String>::new());
    assert_eq!(autocomplete_search(&all, "dark*girl"), Vec::<String>::new());
    assert_eq!(
        autocomplete_search(&all, ""),
        vec![
            "Blue-Eyes White Dragon",
            "D/D/D Oracle King d'Arc",
            "Dark Magician",
            "Dark Magician Girl",
            "Pot of Greed"
        ]
    );
}

#[test]
fn inline_query_reads_what_stands_in_angle_brackets() {
    assert_eq!(inline_query("<Dark Magician>"), Some("Dark Magician".to_string()));
    assert_eq!(inline_query("<>"), Some(String::new()));
    assert_eq!(inline_query("<a@b>"), Some("a@b".to_string()));
    assert_eq!(inline_query("<<x>>"), Some("<x>".to_string()));
}

#[test]
fn inline_query_skips_mentions_and_other_messages() {
    assert_eq!(inline_query("<@1234567>"), None);
    assert_eq!(inline_query("<@>"), None);
    assert_eq!(inline_query(""), None);
    assert_eq!(inline_query("<"), None);
    assert_eq!(inline_query(">"), None);
    assert_eq!(inline_query("<abc"), None);
    assert_eq!(inline_query("abc>"), None);
    assert_eq!(inline_query("hello <abc>"), None);
    assert_eq!(inline_query("<abc> there"), None);
}

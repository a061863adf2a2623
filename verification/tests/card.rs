use tpp_bot_beard::card::{CardDatum, Embed, EmbedColor, EmbedField, EmbedFooter};

fn card(name: &str, frame_type: &str) -> CardDatum {
    CardDatum {
        name: name.to_string(),
        full_type: "Spellcaster / Normal".to_string(),
        race: "Spellcaster".to_string(),
        desc: "The ultimate wizard.".to_string(),
        frame_type: frame_type.to_string(),
        archetype: "Dark Magician".to_string(),
        image_url: "dm.jpg".to_string(),
        ty: "Monster self".to_string(),
        category: Some(vec!["classic".to_string(), "wizard".to_string()]),
        attribute: Some("DARK".to_string()),
        atk: Some(2500),
        def: Some(2100),
        number_value: None,
        level: Some(7),
        linkval: None,
    }
}

fn field(name: &str, value: &str) -> EmbedField {
    EmbedField { name: name.to_string(), value: value.to_string(), inline: true }
}

#[test]
fn detail_view_of_a_card() {
    let got = card("Dark Magician", "normal").make_embed();
    let want = Embed {
        title: "Dark Magician".to_string(),
        description: "The ultimate wizard.".to_string(),
        url: Some("https://theplunderpirates.cc/?current_card=Dark%20Magician".to_string()),
        color: Some(EmbedColor::DarkGrey),
        image: Some("https://theplunderpirates.cc/card_images/Dark%20Magician.jpg".to_string()),
        footer: Some(EmbedFooter {
            text: "The Plunder Pirates".to_string(),
            icon_url: "https://theplunderpirates.cc/icon/apple-touch-icon.png".to_string(),
        }),
        fields: vec![
            field("Type", "Spellcaster / Normal"),
            field("Monster Type", "Spellcaster"),
            field("Attribute", "DARK"),
            field("Level", "7"),
            field("Atk/Def", "2500 / 2100"),
        ],
    };
    assert_eq!(got, Some(want));
}

#[test]
fn detail_view_takes_the_given_link() {
    let got = card("Dark Magician", "normal").make_embed_with_link("https://example.org/x".to_string());
    assert_eq!(got.url, Some("https://example.org/x".to_string()));
    assert_eq!(got.title, "Dark Magician");
}

#[test]
fn link_escapes_the_name() {
    let got = card("A \"B\" <C>", "normal").make_embed().unwrap();
    assert_eq!(
        got.url,
        Some("https://theplunderpirates.cc/?current_card=A%20%22B%22%20%3CC%3E".to_string())
    );
}

#[test]
fn image_link_replaces_punctuation_and_white_space() {
    let got = card("D/D/D  Oracle King\td'Arc", "normal").make_embed().unwrap();
    assert_eq!(
        got.image,
        Some("https://theplunderpirates.cc/card_images/D_D_D%20Oracle%20King%20d_Arc.jpg".to_string())
    );
    let got = card(" What?! ", "normal").make_embed().unwrap();
    assert_eq!(
        got.image,
        Some("https://theplunderpirates.cc/card_images/%20What__%20.jpg".to_string())
    );
}

#[test]
fn colour_goes_by_the_frame() {
    let cases = [
        ("effect", EmbedColor::Orange),
        ("fusion", EmbedColor::Purple),
        ("link", EmbedColor::DarkBlue),
        ("spell", EmbedColor::Teal),
        ("synchro", EmbedColor::Rgb(255, 255, 255)),
        ("synchro_pendulum", EmbedColor::Rgb(255, 255, 255)),
        ("trap", EmbedColor::Magenta),
        ("xyz", EmbedColor::Rgb(0, 0, 0)),
        ("normal", EmbedColor::DarkGrey),
        ("Effect", EmbedColor::DarkGrey),
        ("", EmbedColor::DarkGrey),
    ];
    for (frame, colour) in cases {
        assert_eq!(card("X", frame).make_embed().unwrap().color, Some(colour), "{frame}");
    }
}

#[test]
fn fields_leave_out_what_the_card_lacks() {
    let mut c = card("Pot of Greed", "spell");
    c.ty = "self".to_string();
    c.attribute = None;
    c.level = None;
    c.atk = None;
    c.def = None;
    assert_eq!(
        c.detail_fields(),
        vec![field("Type", "Spellcaster / Normal"), field("Type", "Spellcaster")]
    );
}

#[test]
fn attack_and_defence_need_each_other() {
    let mut c = card("X", "effect");
    c.attribute = None;
    c.level = None;
    c.def = None;
    assert_eq!(c.detail_fields().len(), 2);
    c.def = Some(0);
    c.atk = None;
    assert_eq!(c.detail_fields().len(), 2);
}

#[test]
fn negative_attack_or_defence_is_a_question_mark() {
    let mut c = card("X", "effect");
    c.atk = Some(-1);
    c.def = Some(0);
    assert_eq!(c.detail_fields()[4], field("Atk/Def", "? / 0"));
    c.atk = Some(i32::MAX);
    c.def = Some(i32::MIN);
    assert_eq!(c.detail_fields()[4], field("Atk/Def", "2147483647 / ?"));
}

#[test]
fn link_cards_show_their_link_value() {
    let mut c = card("Linkuriboh", "link");
    c.level = None;
    c.linkval = Some(1);
    c.def = None;
    assert_eq!(
        c.detail_fields(),
        vec![
            field("Type", "Spellcaster / Normal"),
            field("Monster Type", "Spellcaster"),
            field("Attribute", "DARK"),
            field("Link Value", "1"),
        ]
    );
    c.level = Some(u32::MAX);
    c.linkval = Some(12);
    assert_eq!(c.detail_fields()[3], field("Level", "4294967295"));
    assert_eq!(c.detail_fields()[4], field("Link Value", "12"));
}

#[test]
fn duplicate_copies_every_field() {
    let c = card("Dark Magician", "normal");
    assert_eq!(c.duplicate(), c);
    let mut bare = card("X", "xyz");
    bare.category = None;
    bare.attribute = None;
    assert_eq!(bare.duplicate(), bare);
}

//! A card of the database and its detail view.

use crate::normalize::{
    regex_replace_all, replace_disallowed, replace_space_runs, DISALLOWED_PATTERN,
    SPACE_RUN_PATTERN,
};
use crate::text::{
    append_decimal, chars_of, decimal, replace, replaced, string_of, string_views, text_eq,
};
use crate::weburl::{set_url_query, url_with_query};
use vstd::prelude::*;
use vstd::string::StringExecFns;

verus! {

/// The site that shows the cards.
pub const SITE: &'static str = "https://theplunderpirates.cc";

/// Where the card images lie.
pub const IMG_BASE: &'static str = "https://theplunderpirates.cc/card_images/";

/// The icon shown in the footer of a view.
pub const ICON: &'static str = "https://theplunderpirates.cc/icon/apple-touch-icon.png";

/// One card of the database.
#[derive(Debug, Clone, PartialEq, Eq)]
pub struct CardDatum {
    pub name: String,
    pub full_type: String,
    pub race: String,
    pub desc: String,
    pub frame_type: String,
    pub archetype: String,
    pub image_url: String,
    pub ty: String,
    pub category: Option<Vec<String>>,
    pub attribute: Option<String>,
    pub atk: Option<i32>,
    pub def: Option<i32>,
    pub number_value: Option<u32>,
    pub level: Option<u32>,
    pub linkval: Option<u32>,
}

/// A card as mathematical data.
pub struct CardDatumView {
    pub name: Seq<char>,
    pub full_type: Seq<char>,
    pub race: Seq<char>,
    pub desc: Seq<char>,
    pub frame_type: Seq<char>,
    pub archetype: Seq<char>,
    pub image_url: Seq<char>,
    pub ty: Seq<char>,
    pub category: Option<Seq<Seq<char>>>,
    pub attribute: Option<Seq<char>>,
    pub atk: Option<i32>,
    pub def: Option<i32>,
    pub number_value: Option<u32>,
    pub level: Option<u32>,
    pub linkval: Option<u32>,
}

/// The view of an optional text.
pub open spec fn text_option_view(text: Option<String>) -> Option<Seq<char>> {
    match text {
        Some(t) => Some(t@),
        None => None,
    }
}

impl View for CardDatum {
    type V = CardDatumView;

    open spec fn view(&self) -> CardDatumView {
        CardDatumView {
            name: self.name@,
            full_type: self.full_type@,
            race: self.race@,
            desc: self.desc@,
            frame_type: self.frame_type@,
            archetype: self.archetype@,
            image_url: self.image_url@,
            ty: self.ty@,
            category: match self.category {
                Some(tags) => Some(string_views(tags@)),
                None => None,
            },
            attribute: text_option_view(self.attribute),
            atk: self.atk,
            def: self.def,
            number_value: self.number_value,
            level: self.level,
            linkval: self.linkval,
        }
    }
}

/// The views of a sequence of cards.
pub open spec fn card_views(cards: Seq<CardDatum>) -> Seq<CardDatumView> {
    Seq::new(cards.len(), |i: int| cards[i]@)
}

fn copy_texts(texts: &Vec<String>) -> (out: Vec<String>)
    ensures
        string_views(out@) == string_views(texts@),
{
    let mut out: Vec<String> = Vec::new();
    let mut i: usize = 0;
    while i < texts.len()
        invariant
            i <= texts.len(),
            out@.len() == i,
            forall|k: int| 0 <= k < i ==> out@[k]@ == texts@[k]@,
        decreases texts.len() - i,
    {
        out.push(texts[i].clone());
        i += 1;
    }
    assert(string_views(out@) =~= string_views(texts@));
    out
}

impl CardDatum {
    /// A copy of the card.
    pub fn duplicate(&self) -> (out: CardDatum)
        ensures
            out@ == self@,
    {
        CardDatum {
            name: self.name.clone(),
            full_type: self.full_type.clone(),
            race: self.race.clone(),
            desc: self.desc.clone(),
            frame_type: self.frame_type.clone(),
            archetype: self.archetype.clone(),
            image_url: self.image_url.clone(),
            ty: self.ty.clone(),
            category: match &self.category {
                Some(tags) => Some(copy_texts(tags)),
                None => None,
            },
            attribute: match &self.attribute {
                Some(a) => Some(a.clone()),
                None => None,
            },
            atk: self.atk,
            def: self.def,
            number_value: self.number_value,
            level: self.level,
            linkval: self.linkval,
        }
    }
}

/// The accent colour of a view.
#[derive(Debug, Clone, Copy, PartialEq, Eq, Structural)]
pub enum EmbedColor {
    Orange,
    Purple,
    DarkBlue,
    Teal,
    Magenta,
    DarkGrey,
    /// A colour given by its red, green and blue parts.
    Rgb(u8, u8, u8),
}

/// One titled entry of a view.
#[derive(Debug, Clone, PartialEq, Eq)]
pub struct EmbedField {
    pub name: String,
    pub value: String,
    pub inline: bool,
}

/// An entry as mathematical data.
pub struct EmbedFieldView {
    pub name: Seq<char>,
    pub value: Seq<char>,
    pub inline: bool,
}

impl View for EmbedField {
    type V = EmbedFieldView;

    open spec fn view(&self) -> EmbedFieldView {
        EmbedFieldView { name: self.name@, value: self.value@, inline: self.inline }
    }
}

/// The line under a view.
#[derive(Debug, Clone, PartialEq, Eq)]
pub struct EmbedFooter {
    pub text: String,
    pub icon_url: String,
}

/// What is shown to the user: a titled text, with a link, a colour, an image,
/// a footer and entries where it describes a card.
#[derive(Debug, Clone, PartialEq, Eq)]
pub struct Embed {
    pub title: String,
    pub description: String,
    pub url: Option<String>,
    pub color: Option<EmbedColor>,
    pub image: Option<String>,
    pub footer: Option<EmbedFooter>,
    pub fields: Vec<EmbedField>,
}

/// A view as mathematical data; the footer is its text and its icon.
pub struct EmbedView {
    pub title: Seq<char>,
    pub description: Seq<char>,
    pub url: Option<Seq<char>>,
    pub color: Option<EmbedColor>,
    pub image: Option<Seq<char>>,
    pub footer: Option<(Seq<char>, Seq<char>)>,
    pub fields: Seq<EmbedFieldView>,
}

/// The views of a sequence of entries.
pub open spec fn field_views(fields: Seq<EmbedField>) -> Seq<EmbedFieldView> {
    Seq::new(fields.len(), |i: int| fields[i]@)
}

impl View for Embed {
    type V = EmbedView;

    open spec fn view(&self) -> EmbedView {
        EmbedView {
            title: self.title@,
            description: self.description@,
            url: text_option_view(self.url),
            color: self.color,
            image: text_option_view(self.image),
            footer: match self.footer {
                Some(f) => Some((f.text@, f.icon_url@)),
                None => None,
            },
            fields: field_views(self.fields@),
        }
    }
}

/// The colour that goes with a card frame.
pub open spec fn frame_color(frame: Seq<char>) -> EmbedColor {
    if frame == "effect"@ {
        EmbedColor::Orange
    } else if frame == "fusion"@ {
        EmbedColor::Purple
    } else if frame == "link"@ {
        EmbedColor::DarkBlue
    } else if frame == "spell"@ {
        EmbedColor::Teal
    } else if frame == "synchro"@ || frame == "synchro_pendulum"@ {
        EmbedColor::Rgb(255, 255, 255)
    } else if frame == "trap"@ {
        EmbedColor::Magenta
    } else if frame == "xyz"@ {
        EmbedColor::Rgb(0, 0, 0)
    } else {
        EmbedColor::DarkGrey
    }
}

/// The address of the image of the card called `name`: each disallowed
/// character of the name becomes an underscore, each run of white space `%20`.
pub open spec fn image_link(name: Seq<char>) -> Seq<char> {
    IMG_BASE@ + replace_space_runs(replace_disallowed(name, "_"@), "%20"@) + ".jpg"@
}

/// The query that selects the card called `name` on the site.
pub open spec fn card_query(name: Seq<char>) -> Seq<char> {
    "current_card="@ + name
}

/// The text of an attack or defence value: a question mark for a negative one.
pub open spec fn stat_text(value: i32) -> Seq<char> {
    if value < 0 {
        "?"@
    } else {
        decimal(value as nat)
    }
}

/// An entry shown beside others.
pub open spec fn inline_field(name: Seq<char>, value: Seq<char>) -> EmbedFieldView {
    EmbedFieldView { name, value, inline: true }
}

/// The entries of a card's view: its type and race, then its attribute, level,
/// link value and attack with defence, each where the card has it.
pub open spec fn detail_fields(card: CardDatumView) -> Seq<EmbedFieldView> {
    seq![
        inline_field("Type"@, card.full_type),
        inline_field(replaced(card.ty, "self"@, "Type"@), card.race),
    ] + (match card.attribute {
        Some(a) => seq![inline_field("Attribute"@, a)],
        None => Seq::<EmbedFieldView>::empty(),
    }) + (match card.level {
        Some(l) => seq![inline_field("Level"@, decimal(l as nat))],
        None => Seq::<EmbedFieldView>::empty(),
    }) + (match card.linkval {
        Some(l) => seq![inline_field("Link Value"@, decimal(l as nat))],
        None => Seq::<EmbedFieldView>::empty(),
    }) + (match (card.atk, card.def) {
        (Some(a), Some(d)) => seq![
            inline_field("Atk/Def"@, stat_text(a) + " / "@ + stat_text(d)),
        ],
        _ => Seq::<EmbedFieldView>::empty(),
    })
}

/// The detail view of a card whose page on the site is `link`.
pub open spec fn detail_embed(card: CardDatumView, link: Seq<char>) -> EmbedView {
    EmbedView {
        title: card.name,
        description: card.desc,
        url: Some(link),
        color: Some(frame_color(card.frame_type)),
        image: Some(image_link(card.name)),
        footer: Some(("The Plunder Pirates"@, ICON@)),
        fields: detail_fields(card),
    }
}

/// The page of the card called `name` on the site, where one can be formed.
pub open spec fn card_link(name: Seq<char>) -> Option<Seq<char>> {
    url_with_query(SITE@, card_query(name))
}

fn color_of_frame(frame: &str) -> (out: EmbedColor)
    ensures
        out == frame_color(frame@),
{
    if text_eq(frame, "effect") {
        EmbedColor::Orange
    } else if text_eq(frame, "fusion") {
        EmbedColor::Purple
    } else if text_eq(frame, "link") {
        EmbedColor::DarkBlue
    } else if text_eq(frame, "spell") {
        EmbedColor::Teal
    } else if text_eq(frame, "synchro") || text_eq(frame, "synchro_pendulum") {
        EmbedColor::Rgb(255, 255, 255)
    } else if text_eq(frame, "trap") {
        EmbedColor::Magenta
    } else if text_eq(frame, "xyz") {
        EmbedColor::Rgb(0, 0, 0)
    } else {
        EmbedColor::DarkGrey
    }
}

fn image_link_of(name: &str) -> (out: String)
    ensures
        out@ == image_link(name@),
{
    proof {
        reveal_strlit("_");
        reveal_strlit("%20");
        assert(!"_"@.contains('$'));
        assert(!"%20"@.contains('$'));
    }
    let underscored = regex_replace_all(DISALLOWED_PATTERN, &vec![name], "_");
    let escaped = regex_replace_all(SPACE_RUN_PATTERN, &vec![underscored[0].as_str()], "%20");
    let mut out = String::from_str(IMG_BASE);
    out.append(escaped[0].as_str());
    out.append(".jpg");
    out
}

fn stat(value: i32) -> (out: String)
    ensures
        out@ == stat_text(value),
{
    if value < 0 {
        String::from_str("?")
    } else {
        let mut out = String::new();
        append_decimal(&mut out, value as u128);
        assert(out@ =~= decimal(value as nat));
        out
    }
}

fn number(value: u32) -> (out: String)
    ensures
        out@ == decimal(value as nat),
{
    let mut out = String::new();
    append_decimal(&mut out, value as u128);
    assert(out@ =~= decimal(value as nat));
    out
}

fn field(name: String, value: String) -> (out: EmbedField)
    ensures
        out@ == inline_field(name@, value@),
{
    EmbedField { name, value, inline: true }
}

impl CardDatum {
    /// The entries of the card's detail view.
    pub fn detail_fields(&self) -> (out: Vec<EmbedField>)
        ensures
            field_views(out@) == detail_fields(self@),
    {
        let mut out: Vec<EmbedField> = Vec::new();
        out.push(field(String::from_str("Type"), self.full_type.clone()));
        let kind = replace(&chars_of(self.ty.as_str()), &chars_of("self"), &chars_of("Type"));
        out.push(field(string_of(&kind), self.race.clone()));
        assert(field_views(out@) =~= seq![
            inline_field("Type"@, self@.full_type),
            inline_field(replaced(self@.ty, "self"@, "Type"@), self@.race),
        ]);
        let ghost so_far = field_views(out@);
        if let Some(a) = &self.attribute {
            out.push(field(String::from_str("Attribute"), a.clone()));
            assert(field_views(out@) =~= so_far + seq![inline_field("Attribute"@, a@)]);
        } else {
            assert(field_views(out@) =~= so_far + Seq::<EmbedFieldView>::empty());
        }
        let ghost so_far = field_views(out@);
        if let Some(l) = self.level {
            out.push(field(String::from_str("Level"), number(l)));
            assert(field_views(out@) =~= so_far + seq![
                inline_field("Level"@, decimal(l as nat)),
            ]);
        } else {
            assert(field_views(out@) =~= so_far + Seq::<EmbedFieldView>::empty());
        }
        let ghost so_far = field_views(out@);
        if let Some(l) = self.linkval {
            out.push(field(String::from_str("Link Value"), number(l)));
            assert(field_views(out@) =~= so_far + seq![
                inline_field("Link Value"@, decimal(l as nat)),
            ]);
        } else {
            assert(field_views(out@) =~= so_far + Seq::<EmbedFieldView>::empty());
        }
        let ghost so_far = field_views(out@);
        match (self.atk, self.def) {
            (Some(a), Some(d)) => {
                let mut value = stat(a);
                value.append(" / ");
                value.append(stat(d).as_str());
                out.push(field(String::from_str("Atk/Def"), value));
                assert(field_views(out@) =~= so_far + seq![
                    inline_field("Atk/Def"@, stat_text(a) + " / "@ + stat_text(d)),
                ]);
            },
            _ => {
                assert(field_views(out@) =~= so_far + Seq::<EmbedFieldView>::empty());
            },
        }
        out
    }

    /// The detail view of the card, given the address `link` of its page.
    pub fn make_embed_with_link(&self, link: String) -> (out: Embed)
        ensures
            out@ == detail_embed(self@, link@),
    {
        Embed {
            title: self.name.clone(),
            description: self.desc.clone(),
            url: Some(link),
            color: Some(color_of_frame(self.frame_type.as_str())),
            image: Some(image_link_of(self.name.as_str())),
            footer: Some(
                EmbedFooter {
                    text: String::from_str("The Plunder Pirates"),
                    icon_url: String::from_str(ICON),
                },
            ),
            fields: self.detail_fields(),
        }
    }

    /// The detail view of the card; none where no address of its page can be
    /// formed.
    pub fn make_embed(&self) -> (out: Option<Embed>)
        ensures
            match card_link(self@.name) {
                Some(link) => out matches Some(e) && e@ == detail_embed(self@, link),
                None => out is None,
            },
    {
        proof {
            reveal_strlit("https://theplunderpirates.cc");
            assert(!SITE@.contains('#'));
        }
        let mut query = String::from_str("current_card=");
        query.append(self.name.as_str());
        match set_url_query(SITE, query.as_str()) {
            Ok(link) => Some(self.make_embed_with_link(link)),
            Err(_) => None,
        }
    }
}

} // verus!

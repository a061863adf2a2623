//! Decks as the deck site hands them out, and the address of a deck.

use crate::card::text_option_view;
use crate::text::text_eq;
use crate::weburl::{split_url, url_parts, UrlParts};
use vstd::prelude::*;

verus! {

/// One card of a deck.
#[derive(Debug, Clone, Hash, PartialEq, Eq)]
pub struct DuelingBookCard {
    pub id: u32,
    pub name: String,
    pub treated_as: String,
    pub effect: String,
    pub pendulum_effect: String,
    pub card_type: String,
    pub monster_color: String,
    pub is_effect: u8,
    pub ty: String,
    pub attribute: String,
    pub level: u8,
    pub ability: String,
    pub flip: u8,
    pub pendulum: u8,
    pub scale: u8,
    pub arrows: String,
    pub atk: String,
    pub def: String,
    pub tcg_limit: u8,
    pub ocg_limit: u8,
    pub serial_number: String,
    pub tcg: u8,
    pub ocg: u8,
    pub rush: u8,
    pub pic: String,
    pub hidden: u8,
    pub username: Option<String>,
}

/// A deck card as mathematical data.
pub struct DuelingBookCardView {
    pub id: u32,
    pub name: Seq<char>,
    pub treated_as: Seq<char>,
    pub effect: Seq<char>,
    pub pendulum_effect: Seq<char>,
    pub card_type: Seq<char>,
    pub monster_color: Seq<char>,
    pub is_effect: u8,
    pub ty: Seq<char>,
    pub attribute: Seq<char>,
    pub level: u8,
    pub ability: Seq<char>,
    pub flip: u8,
    pub pendulum: u8,
    pub scale: u8,
    pub arrows: Seq<char>,
    pub atk: Seq<char>,
    pub def: Seq<char>,
    pub tcg_limit: u8,
    pub ocg_limit: u8,
    pub serial_number: Seq<char>,
    pub tcg: u8,
    pub ocg: u8,
    pub rush: u8,
    pub pic: Seq<char>,
    pub hidden: u8,
    pub username: Option<Seq<char>>,
}

impl View for DuelingBookCard {
    type V = DuelingBookCardView;

    open spec fn view(&self) -> DuelingBookCardView {
        DuelingBookCardView {
            id: self.id,
            name: self.name@,
            treated_as: self.treated_as@,
            effect: self.effect@,
            pendulum_effect: self.pendulum_effect@,
            card_type: self.card_type@,
            monster_color: self.monster_color@,
            is_effect: self.is_effect,
            ty: self.ty@,
            attribute: self.attribute@,
            level: self.level,
            ability: self.ability@,
            flip: self.flip,
            pendulum: self.pendulum,
            scale: self.scale,
            arrows: self.arrows@,
            atk: self.atk@,
            def: self.def@,
            tcg_limit: self.tcg_limit,
            ocg_limit: self.ocg_limit,
            serial_number: self.serial_number@,
            tcg: self.tcg,
            ocg: self.ocg,
            rush: self.rush,
            pic: self.pic@,
            hidden: self.hidden,
            username: text_option_view(self.username),
        }
    }
}

impl DuelingBookCard {
    /// Tests whether two cards agree in every field.
    pub fn same_as(&self, other: &DuelingBookCard) -> (out: bool)
        ensures
            out == (self@ == other@),
    {
        let numbers = self.id == other.id && self.is_effect == other.is_effect && self.level
            == other.level && self.flip == other.flip && self.pendulum == other.pendulum
            && self.scale == other.scale && self.tcg_limit == other.tcg_limit && self.ocg_limit
            == other.ocg_limit && self.tcg == other.tcg && self.ocg == other.ocg && self.rush
            == other.rush && self.hidden == other.hidden;
        let texts = self.name == other.name && self.treated_as == other.treated_as && self.effect
            == other.effect && self.pendulum_effect == other.pendulum_effect && self.card_type
            == other.card_type && self.monster_color == other.monster_color && self.ty == other.ty
            && self.attribute == other.attribute && self.ability == other.ability && self.arrows
            == other.arrows && self.atk == other.atk && self.def == other.def
            && self.serial_number == other.serial_number && self.pic == other.pic;
        let user = match (&self.username, &other.username) {
            (Some(a), Some(b)) => *a == *b,
            (None, None) => true,
            _ => false,
        };
        numbers && texts && user
    }
}

/// The views of a sequence of deck cards.
pub open spec fn deck_card_views(cards: Seq<DuelingBookCard>) -> Seq<DuelingBookCardView> {
    Seq::new(cards.len(), |i: int| cards[i]@)
}

/// A deck: its three groups of cards and what the site says of it.
#[derive(Debug, Clone, PartialEq, Eq)]
pub struct DuelingBookDeck {
    pub action: String,
    pub id: u32,
    pub name: String,
    pub main: Vec<DuelingBookCard>,
    pub side: Vec<DuelingBookCard>,
    pub extra: Vec<DuelingBookCard>,
    pub legality: String,
    pub tcg: String,
    pub ocg: String,
    pub links: String,
}

/// Why an address names no deck.
#[derive(Debug, Clone, Copy, PartialEq, Eq)]
pub enum DeckUrlError {
    /// The text is no absolute address.
    Unparsable(url::ParseError),
    /// The address names no host.
    NoHost,
    /// The query of the address has no parameter `id`.
    MissingId,
}

/// The kind of a fault, without its cause.
#[derive(Debug, Clone, Copy, PartialEq, Eq, Structural)]
pub enum DeckUrlFault {
    Unparsable,
    NoHost,
    MissingId,
}

impl DeckUrlError {
    /// The kind of the fault.
    pub open spec fn fault(&self) -> DeckUrlFault {
        match self {
            DeckUrlError::Unparsable(_) => DeckUrlFault::Unparsable,
            DeckUrlError::NoHost => DeckUrlFault::NoHost,
            DeckUrlError::MissingId => DeckUrlFault::MissingId,
        }
    }

    /// The kind of the fault.
    pub fn kind(&self) -> (out: DeckUrlFault)
        ensures
            out == self.fault(),
    {
        match self {
            DeckUrlError::Unparsable(_) => DeckUrlFault::Unparsable,
            DeckUrlError::NoHost => DeckUrlFault::NoHost,
            DeckUrlError::MissingId => DeckUrlFault::MissingId,
        }
    }
}

/// The value of the first parameter called `id`.
pub open spec fn first_id(pairs: Seq<(Seq<char>, Seq<char>)>) -> Option<Seq<char>>
    decreases pairs.len(),
{
    if pairs.len() == 0 {
        None
    } else if pairs[0].0 == "id"@ {
        Some(pairs[0].1)
    } else {
        first_id(pairs.drop_first())
    }
}

/// The deck that a parsed address names: the value of its first parameter
/// `id`, where it names a host.
pub open spec fn deck_id_in(parts: (bool, Seq<(Seq<char>, Seq<char>)>)) -> Result<
    Seq<char>,
    DeckUrlFault,
> {
    if !parts.0 {
        Err(DeckUrlFault::NoHost)
    } else {
        match first_id(parts.1) {
            Some(id) => Ok(id),
            None => Err(DeckUrlFault::MissingId),
        }
    }
}

/// The deck that the address `text` names.
pub open spec fn deck_id_of(text: Seq<char>) -> Result<Seq<char>, DeckUrlFault> {
    match url_parts(text) {
        Some(parts) => deck_id_in(parts),
        None => Err(DeckUrlFault::Unparsable),
    }
}

/// Whether `out` is the outcome `wanted`: the same id, or a fault of the same
/// kind.
pub open spec fn is_outcome(
    out: Result<String, DeckUrlError>,
    wanted: Result<Seq<char>, DeckUrlFault>,
) -> bool {
    match out {
        Ok(id) => wanted == Ok::<Seq<char>, DeckUrlFault>(id@),
        Err(e) => wanted == Err::<Seq<char>, DeckUrlFault>(e.fault()),
    }
}

impl DuelingBookDeck {
    /// Reads the id of a deck from the parts of its address.
    pub fn id_in(parts: &UrlParts) -> (out: Result<String, DeckUrlError>)
        ensures
            is_outcome(out, deck_id_in(parts@)),
    {
        if !parts.has_host {
            return Err(DeckUrlError::NoHost);
        }
        let ghost pairs = parts@.1;
        let mut i: usize = 0;
        assert(pairs.skip(0) =~= pairs);
        while i < parts.pairs.len()
            invariant
                i <= parts.pairs.len(),
                pairs == parts@.1,
                parts.has_host,
                first_id(pairs) == first_id(pairs.skip(i as int)),
            decreases parts.pairs.len() - i,
        {
            let ghost rest = pairs.skip(i as int);
            assert(rest[0] == pairs[i as int]);
            assert(pairs[i as int] == (parts.pairs@[i as int].0@, parts.pairs@[i as int].1@));
            if text_eq(parts.pairs[i].0.as_str(), "id") {
                let id = parts.pairs[i].1.clone();
                return Ok(id);
            }
            assert(rest.drop_first() =~= pairs.skip(i + 1));
            i += 1;
        }
        Err(DeckUrlError::MissingId)
    }

    /// Reads the id of a deck from its address, such as
    /// `https://www.duelingbook.com/deck?id=16249952`.
    pub fn deck_id(deck_url: &str) -> (out: Result<String, DeckUrlError>)
        ensures
            is_outcome(out, deck_id_of(deck_url@)),
    {
        match split_url(deck_url) {
            Ok(parts) => DuelingBookDeck::id_in(&parts),
            Err(e) => Err(DeckUrlError::Unparsable(e)),
        }
    }
}

} // verus!

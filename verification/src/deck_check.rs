//! Checking a deck against the names of the card database.

use crate::card::{card_views, CardDatum};
use crate::duelingbook::{deck_card_views, DuelingBookCard, DuelingBookCardView, DuelingBookDeck};
use crate::search::names_of;
use crate::sorting::{positions, sort_order, sorted_order};
use crate::tally::{index_of_first, lemma_index_of_first, tally};
use crate::text::{
    append_decimal, chars_of, decimal, join, joined, piece_views, string_views,
};
use vstd::prelude::*;
use vstd::string::StringExecFns;

verus! {

/// The set of the texts of `names`.
pub open spec fn name_set(names: Seq<Seq<char>>) -> Set<Seq<char>> {
    Set::new(|name: Seq<char>| names.contains(name))
}

/// The names that count as valid. A name may be held more than once; what
/// counts is the set.
#[derive(Debug, Clone)]
pub struct NameSet {
    names: Vec<String>,
}

impl View for NameSet {
    type V = Set<Seq<char>>;

    closed spec fn view(&self) -> Set<Seq<char>> {
        name_set(string_views(self.names@))
    }
}

impl NameSet {
    /// The set of the given names.
    pub fn from_names(names: Vec<String>) -> (out: NameSet)
        ensures
            out@ == name_set(string_views(names@)),
    {
        NameSet { names }
    }

    /// The set of the names of the given cards.
    pub fn from_cards(cards: &Vec<CardDatum>) -> (out: NameSet)
        ensures
            out@ == name_set(names_of(card_views(cards@))),
    {
        let mut names: Vec<String> = Vec::new();
        let mut i: usize = 0;
        while i < cards.len()
            invariant
                i <= cards.len(),
                names@.len() == i,
                forall|k: int| 0 <= k < i ==> #[trigger] names@[k]@ == cards@[k]@.name,
            decreases cards.len() - i,
        {
            names.push(cards[i].name.clone());
            i += 1;
        }
        assert(string_views(names@) =~= names_of(card_views(cards@)));
        NameSet { names }
    }

    /// Tests whether `name` is in the set.
    pub fn contains(&self, name: &str) -> (out: bool)
        ensures
            out == self@.contains(name@),
    {
        let wanted = String::from_str(name);
        let ghost texts = string_views(self.names@);
        let mut i: usize = 0;
        while i < self.names.len()
            invariant
                i <= self.names.len(),
                texts == string_views(self.names@),
                wanted@ == name@,
                forall|k: int| 0 <= k < i ==> #[trigger] texts[k] != name@,
            decreases self.names.len() - i,
        {
            if self.names[i] == wanted {
                assert(texts[i as int] == name@);
                return true;
            }
            i += 1;
        }
        false
    }
}

/// The cards of `group` whose name is not in `valid`, in their order.
pub open spec fn invalid_in(valid: Set<Seq<char>>, group: Seq<DuelingBookCardView>) -> Seq<
    DuelingBookCardView,
> {
    group.filter(|card: DuelingBookCardView| !valid.contains(card.name))
}

/// One invalid card of a group with the number of its copies there.
#[derive(Debug, Clone, Copy)]
pub struct InvalidEntry<'a> {
    pub card: &'a DuelingBookCard,
    pub count: usize,
}

/// The views of a sequence of entries.
pub open spec fn entry_views(entries: Seq<InvalidEntry<'_>>) -> Seq<(DuelingBookCardView, nat)> {
    Seq::new(entries.len(), |i: int| (entries[i].card@, entries[i].count as nat))
}

fn find_entry(entries: &Vec<InvalidEntry<'_>>, card: &DuelingBookCard) -> (at: usize)
    ensures
        at == index_of_first(entry_views(entries@), card@),
        at <= entries.len(),
{
    let ghost views = entry_views(entries@);
    let mut at: usize = 0;
    assert(views.skip(0) =~= views);
    while at < entries.len()
        invariant
            at <= entries.len(),
            views == entry_views(entries@),
            index_of_first(views, card@) == at + index_of_first(views.skip(at as int), card@),
        decreases entries.len() - at,
    {
        let ghost rest = views.skip(at as int);
        assert(rest[0] == views[at as int]);
        if entries[at].card.same_as(card) {
            return at;
        }
        assert(rest.drop_first() =~= views.skip(at + 1));
        at += 1;
    }
    at
}

/// The invalid cards of a group: each distinct one with the number of its
/// copies, in the order in which they first occur, and the number of all
/// invalid copies. Two cards are the same where they agree in every field.
pub fn track_invalids<'a>(valid_cards: &NameSet, cards: &'a Vec<DuelingBookCard>) -> (out: (
    Vec<InvalidEntry<'a>>,
    usize,
))
    ensures
        entry_views(out.0@) == tally(invalid_in(valid_cards@, deck_card_views(cards@))),
        out.1 == invalid_in(valid_cards@, deck_card_views(cards@)).len(),
{
    let ghost views = deck_card_views(cards@);
    let ghost bad = |card: DuelingBookCardView| !valid_cards@.contains(card.name);
    let mut invalids: Vec<InvalidEntry<'a>> = Vec::new();
    let mut invalid_count: usize = 0;
    let mut i: usize = 0;
    proof {
        reveal(Seq::filter);
        assert(views.take(0) =~= Seq::<DuelingBookCardView>::empty());
        assert(entry_views(invalids@) =~= tally(views.take(0).filter(bad)));
    }
    while i < cards.len()
        invariant
            i <= cards.len(),
            views == deck_card_views(cards@),
            bad == |card: DuelingBookCardView| !valid_cards@.contains(card.name),
            entry_views(invalids@) == tally(views.take(i as int).filter(bad)),
            invalid_count == views.take(i as int).filter(bad).len(),
            invalid_count <= i,
            forall|k: int| 0 <= k < invalids@.len() ==> (#[trigger] invalids@[k]).count
                <= invalid_count,
        decreases cards.len() - i,
    {
        let card = &cards[i];
        let ghost found = views.take(i as int).filter(bad);
        let ghost before = entry_views(invalids@);
        proof {
            reveal(Seq::filter);
            assert(views.take(i + 1).drop_last() =~= views.take(i as int));
            assert(views.take(i + 1).last() == card@);
        }
        if !valid_cards.contains(card.name.as_str()) {
            let ghost now = found.push(card@);
            assert(now.drop_last() =~= found);
            let at = find_entry(&invalids, card);
            if at < invalids.len() {
                let entry = invalids[at];
                invalids.set(at, InvalidEntry { card: entry.card, count: entry.count + 1 });
                proof {
                    lemma_index_of_first(before, card@);
                    assert(entry_views(invalids@) =~= before.update(
                        at as int,
                        (card@, before[at as int].1 + 1),
                    ));
                }
            } else {
                invalids.push(InvalidEntry { card, count: 1 });
                assert(entry_views(invalids@) =~= before.push((card@, 1)));
            }
            invalid_count += 1;
        }
        i += 1;
    }
    assert(views.take(cards.len() as int) =~= views);
    (invalids, invalid_count)
}

/// The line of the report for an invalid card: its name, who made it where
/// it is a custom card, and the number of its copies.
pub open spec fn entry_line(card: DuelingBookCardView, count: nat) -> Seq<char> {
    "- **"@ + card.name + "**"@ + (match card.username {
        Some(user) => " *(custom by: "@ + user + ")*"@,
        None => Seq::<char>::empty(),
    }) + " x "@ + decimal(count)
}

/// The names of the cards of `entries`.
pub open spec fn entry_names(entries: Seq<(DuelingBookCardView, nat)>) -> Seq<Seq<char>> {
    entries.map_values(|entry: (DuelingBookCardView, nat)| entry.0.name)
}

/// The lines for `entries`, in ascending order of the card names; entries
/// with one name keep their order.
pub open spec fn entry_lines(entries: Seq<(DuelingBookCardView, nat)>) -> Seq<Seq<char>> {
    sorted_order(entry_names(entries)).map_values(
        |at: int| entry_line(entries[at].0, entries[at].1),
    )
}

/// The headline of the part of the report for one group.
pub open spec fn section_header(label: Seq<char>, total: nat) -> Seq<char> {
    "## "@ + label + " deck includes "@ + decimal(total) + " invalid cards:"@
}

/// The part of the report for one group: nothing where it has no invalid
/// card, else its headline and a line for each distinct invalid card.
pub open spec fn section(
    label: Seq<char>,
    entries: Seq<(DuelingBookCardView, nat)>,
    total: nat,
) -> Seq<Seq<char>> {
    if entries.len() == 0 {
        Seq::<Seq<char>>::empty()
    } else {
        seq![section_header(label, total)] + entry_lines(entries)
    }
}

/// The headline of a report on an invalid deck.
pub open spec fn report_title(total: nat) -> Seq<char> {
    "# This deck has the following "@ + decimal(total) + " invalid cards:"@
}

/// The report on a deck whose groups hold the given invalid cards.
pub open spec fn report_of(
    main: Seq<DuelingBookCardView>,
    side: Seq<DuelingBookCardView>,
    extra: Seq<DuelingBookCardView>,
) -> Seq<char> {
    if tally(main).len() == 0 && tally(side).len() == 0 && tally(extra).len() == 0 {
        "This deck is valid."@
    } else {
        joined(
            seq![report_title(main.len() + side.len() + extra.len())] + section(
                "Main"@,
                tally(main),
                main.len(),
            ) + section("Side"@, tally(side), side.len()) + section(
                "Extra"@,
                tally(extra),
                extra.len(),
            ),
            "\n"@,
        )
    }
}

/// The report on a deck with the groups `main`, `side` and `extra`, checked
/// against the names `valid`.
pub open spec fn deck_report(
    valid: Set<Seq<char>>,
    main: Seq<DuelingBookCardView>,
    side: Seq<DuelingBookCardView>,
    extra: Seq<DuelingBookCardView>,
) -> Seq<char> {
    report_of(invalid_in(valid, main), invalid_in(valid, side), invalid_in(valid, extra))
}

fn line_of(entry: &InvalidEntry<'_>) -> (out: String)
    ensures
        out@ == entry_line(entry.card@, entry.count as nat),
{
    let mut out = String::from_str("- **");
    out.append(entry.card.name.as_str());
    out.append("**");
    match &entry.card.username {
        Some(user) => {
            out.append(" *(custom by: ");
            out.append(user.as_str());
            out.append(")*");
        },
        None => {},
    }
    out.append(" x ");
    append_decimal(&mut out, entry.count as u128);
    assert(out@ =~= entry_line(entry.card@, entry.count as nat));
    out
}

/// Appends to `msg` the part of the report for the group called `name`, whose
/// invalid cards are `invalids` and number `invalid_count`.
pub fn add_invalids(
    name: &str,
    invalids: &Vec<InvalidEntry<'_>>,
    invalid_count: usize,
    msg: &mut Vec<String>,
)
    ensures
        string_views(final(msg)@) == string_views(old(msg)@) + section(
            name@,
            entry_views(invalids@),
            invalid_count as nat,
        ),
{
    let ghost start = string_views(msg@);
    let ghost entries = entry_views(invalids@);
    if invalids.len() == 0 {
        assert(string_views(msg@) =~= start + Seq::<Seq<char>>::empty());
        return ;
    }
    let mut header = String::from_str("## ");
    header.append(name);
    header.append(" deck includes ");
    append_decimal(&mut header, invalid_count as u128);
    header.append(" invalid cards:");
    assert(header@ =~= section_header(name@, invalid_count as nat));
    msg.push(header);
    let mut keys: Vec<Vec<char>> = Vec::new();
    let mut i: usize = 0;
    while i < invalids.len()
        invariant
            i <= invalids.len(),
            keys@.len() == i,
            forall|k: int| 0 <= k < i ==> #[trigger] keys@[k]@ == invalids@[k].card@.name,
        decreases invalids.len() - i,
    {
        keys.push(chars_of(invalids[i].card.name.as_str()));
        i += 1;
    }
    assert(piece_views(keys@) =~= entry_names(entries));
    let order = sort_order(&keys);
    let ghost lines = entry_lines(entries);
    let mut j: usize = 0;
    assert(string_views(msg@) =~= start + seq![section_header(name@, invalid_count as nat)]
        + lines.take(0));
    while j < order.len()
        invariant
            j <= order.len(),
            order@.len() == invalids@.len(),
            entries == entry_views(invalids@),
            lines == entry_lines(entries),
            positions(order@) == sorted_order(entry_names(entries)),
            forall|k: int| 0 <= k < order@.len() ==> #[trigger] order@[k] < invalids@.len(),
            string_views(msg@) == start + seq![section_header(name@, invalid_count as nat)]
                + lines.take(j as int),
        decreases order.len() - j,
    {
        let ghost so_far = string_views(msg@);
        let line = line_of(&invalids[order[j]]);
        proof {
            assert(positions(order@)[j as int] == order@[j as int] as int);
            assert(lines[j as int] == line@);
            assert(lines.take(j + 1) =~= lines.take(j as int).push(line@));
        }
        msg.push(line);
        assert(string_views(msg@) =~= so_far.push(line@));
        j += 1;
    }
    assert(lines.take(order.len() as int) =~= lines);
    assert(string_views(msg@) =~= start + (seq![section_header(name@, invalid_count as nat)]
        + lines));
}

/// The report on `deck`, checked against the names `valid_cards`: that the
/// deck is valid where no card of it has a name outside them, else a headline
/// with the number of invalid copies and a part for each group that has any,
/// main, side and extra in this order.
pub fn check_deck(valid_cards: &NameSet, deck: &DuelingBookDeck) -> (out: String)
    ensures
        out@ == deck_report(
            valid_cards@,
            deck_card_views(deck.main@),
            deck_card_views(deck.side@),
            deck_card_views(deck.extra@),
        ),
{
    let (invalid_main, main_count) = track_invalids(valid_cards, &deck.main);
    let (invalid_side, side_count) = track_invalids(valid_cards, &deck.side);
    let (invalid_extra, extra_count) = track_invalids(valid_cards, &deck.extra);
    if invalid_main.len() == 0 && invalid_side.len() == 0 && invalid_extra.len() == 0 {
        String::from_str("This deck is valid.")
    } else {
        let total: u128 = main_count as u128 + side_count as u128 + extra_count as u128;
        let mut title = String::from_str("# This deck has the following ");
        append_decimal(&mut title, total);
        title.append(" invalid cards:");
        assert(title@ =~= report_title(total as nat));
        let mut msg: Vec<String> = Vec::new();
        msg.push(title);
        assert(string_views(msg@) =~= seq![report_title(total as nat)]);
        add_invalids("Main", &invalid_main, main_count, &mut msg);
        add_invalids("Side", &invalid_side, side_count, &mut msg);
        add_invalids("Extra", &invalid_extra, extra_count, &mut msg);
        join(&msg, "\n")
    }
}

/// A deck all of whose cards have valid names gets the report that it is
/// valid, however many cards it holds.
pub proof fn lemma_valid_deck_report(
    valid: Set<Seq<char>>,
    main: Seq<DuelingBookCardView>,
    side: Seq<DuelingBookCardView>,
    extra: Seq<DuelingBookCardView>,
)
    requires
        forall|i: int| 0 <= i < main.len() ==> valid.contains(#[trigger] main[i].name),
        forall|i: int| 0 <= i < side.len() ==> valid.contains(#[trigger] side[i].name),
        forall|i: int| 0 <= i < extra.len() ==> valid.contains(#[trigger] extra[i].name),
    ensures
        deck_report(valid, main, side, extra) == "This deck is valid."@,
{
    lemma_no_invalid(valid, main);
    lemma_no_invalid(valid, side);
    lemma_no_invalid(valid, extra);
}

/// A group all of whose cards have valid names has no invalid card.
pub proof fn lemma_no_invalid(valid: Set<Seq<char>>, group: Seq<DuelingBookCardView>)
    requires
        forall|i: int| 0 <= i < group.len() ==> valid.contains(#[trigger] group[i].name),
    ensures
        invalid_in(valid, group).len() == 0,
        tally(invalid_in(valid, group)).len() == 0,
    decreases group.len(),
{
    reveal(Seq::filter);
    if group.len() > 0 {
        let front = group.drop_last();
        assert forall|i: int| 0 <= i < front.len() implies valid.contains(
            #[trigger] front[i].name,
        ) by {
            assert(front[i] == group[i]);
        }
        lemma_no_invalid(valid, front);
    }
}

} // verus!

//! Searching the cards by name and effect.

use crate::card::{
    card_link, card_views, detail_embed, CardDatum, CardDatumView, Embed, EmbedFieldView,
    EmbedView,
};
use crate::normalize::{
    lowercase_of, normalize_all, normalize_search_term, normalized, stripped,
};
use crate::sorting::{
    lemma_sorted_order_is_stable, positions, sort_order, sorted_order, sorted_texts,
};
use crate::text::{
    chars_of, contains, contains_text, join, joined, occurs_at, piece_views, split, split_on,
    string_of, string_views, trim, trimmed,
};
use vstd::prelude::*;
use vstd::string::StringExecFns;

verus! {

/// How many names a list of several matches shows at most.
pub const MAX_LISTED: usize = 25;

/// For how long fetched cards stay fresh: fifteen minutes, in milliseconds.
pub const REFRESH_INTERVAL: i64 = 900_000;

/// The sub-terms of a query: its normal form split at `*`, each piece trimmed.
pub open spec fn terms_of(query: Seq<char>) -> Seq<Seq<char>> {
    split_on(normalized(query), '*').map_values(|piece: Seq<char>| trimmed(piece))
}

/// Whether the normal form of `field` contains every one of `terms`.
pub open spec fn has_all_terms(field: Seq<char>, terms: Seq<Seq<char>>) -> bool {
    forall|k: int| 0 <= k < terms.len() ==> contains_text(normalized(field), #[trigger] terms[k])
}

/// Whether `card` meets both queries: its name every sub-term of `name`, its
/// text every sub-term of `effect`.
pub open spec fn card_matches(card: CardDatumView, name: Seq<char>, effect: Seq<char>) -> bool {
    has_all_terms(card.name, terms_of(name)) && has_all_terms(card.desc, terms_of(effect))
}

/// The text of an optional query: empty where there is none.
pub open spec fn query_text(query: Option<&str>) -> Seq<char> {
    match query {
        Some(q) => q@,
        None => Seq::<char>::empty(),
    }
}

/// The cards of `cards` that meet both queries, in their order.
pub open spec fn filtered(cards: Seq<CardDatumView>, name: Seq<char>, effect: Seq<char>) -> Seq<
    CardDatumView,
> {
    cards.filter(|card: CardDatumView| card_matches(card, name, effect))
}

/// The sub-terms of a query.
pub fn terms(query: &str) -> (out: Vec<Vec<char>>)
    ensures
        piece_views(out@) == terms_of(query@),
{
    let normal = normalize_search_term(query);
    let pieces = split(&chars_of(normal.as_str()), '*');
    let mut out: Vec<Vec<char>> = Vec::new();
    let mut i: usize = 0;
    while i < pieces.len()
        invariant
            i <= pieces.len(),
            out@.len() == i,
            forall|k: int| 0 <= k < i ==> out@[k]@ == trimmed(#[trigger] pieces@[k]@),
        decreases pieces.len() - i,
    {
        out.push(trim(&pieces[i]));
        i += 1;
    }
    assert(piece_views(out@) =~= terms_of(query@)) by {
        assert(piece_views(pieces@) == split_on(normalized(query@), '*'));
        assert forall|k: int| 0 <= k < out@.len() implies piece_views(out@)[k] == terms_of(
            query@,
        )[k] by {
            assert(piece_views(pieces@)[k] == pieces@[k]@);
        }
    }
    out
}

fn contains_all(text: &Vec<char>, terms: &Vec<Vec<char>>) -> (out: bool)
    ensures
        out == forall|k: int|
            0 <= k < terms@.len() ==> contains_text(text@, #[trigger] piece_views(terms@)[k]),
{
    let mut k: usize = 0;
    while k < terms.len()
        invariant
            k <= terms.len(),
            forall|j: int| 0 <= j < k ==> contains_text(text@, #[trigger] piece_views(terms@)[j]),
        decreases terms.len() - k,
    {
        assert(piece_views(terms@)[k as int] == terms@[k as int]@);
        if !contains(text, &terms[k]) {
            return false;
        }
        k += 1;
    }
    true
}

/// Tests whether the normal form of `field` contains every one of `terms`.
pub fn has_terms(field: &str, terms: &Vec<Vec<char>>) -> (out: bool)
    ensures
        out == has_all_terms(field@, piece_views(terms@)),
{
    contains_all(&chars_of(normalize_search_term(field).as_str()), terms)
}

/// The cards of `cards` whose name meets the query `name` and whose text
/// meets the query `effect`, copied, in their order. A query that is absent
/// counts as the empty query.
pub fn filter_cards(cards: &Vec<CardDatum>, name: Option<&str>, effect: Option<&str>) -> (out: Vec<
    CardDatum,
>)
    ensures
        card_views(out@) == filtered(card_views(cards@), query_text(name), query_text(effect)),
{
    let name_terms = terms(
        match name {
            Some(q) => q,
            None => "",
        },
    );
    let effect_terms = terms(
        match effect {
            Some(q) => q,
            None => "",
        },
    );
    proof {
        reveal_strlit("");
        assert(""@ =~= Seq::<char>::empty());
    }
    let mut names: Vec<&str> = Vec::new();
    let mut descs: Vec<&str> = Vec::new();
    let mut n: usize = 0;
    while n < cards.len()
        invariant
            n <= cards.len(),
            names@.len() == n,
            descs@.len() == n,
            forall|k: int| 0 <= k < n ==> (#[trigger] names@[k])@ == cards@[k]@.name,
            forall|k: int| 0 <= k < n ==> (#[trigger] descs@[k])@ == cards@[k]@.desc,
        decreases cards.len() - n,
    {
        names.push(cards[n].name.as_str());
        descs.push(cards[n].desc.as_str());
        n += 1;
    }
    let normal_names = normalize_all(&names);
    let normal_descs = normalize_all(&descs);
    let ghost views = card_views(cards@);
    let ghost wanted = |card: CardDatumView|
        card_matches(card, query_text(name), query_text(effect));
    let mut out: Vec<CardDatum> = Vec::new();
    let mut i: usize = 0;
    proof {
        reveal(Seq::filter);
        assert(views.take(0) =~= Seq::<CardDatumView>::empty());
        assert(card_views(out@) =~= views.take(0).filter(wanted));
    }
    while i < cards.len()
        invariant
            i <= cards.len(),
            views == card_views(cards@),
            wanted == |card: CardDatumView|
                card_matches(card, query_text(name), query_text(effect)),
            piece_views(name_terms@) == terms_of(query_text(name)),
            piece_views(effect_terms@) == terms_of(query_text(effect)),
            normal_names@.len() == cards@.len(),
            normal_descs@.len() == cards@.len(),
            forall|k: int|
                0 <= k < cards@.len() ==> (#[trigger] normal_names@[k])@ == normalized(
                    cards@[k]@.name,
                ),
            forall|k: int|
                0 <= k < cards@.len() ==> (#[trigger] normal_descs@[k])@ == normalized(
                    cards@[k]@.desc,
                ),
            card_views(out@) == views.take(i as int).filter(wanted),
        decreases cards.len() - i,
    {
        let card = &cards[i];
        let ghost kept = card_views(out@);
        proof {
            reveal(Seq::filter);
            assert(views.take(i + 1).drop_last() =~= views.take(i as int));
            assert(views.take(i + 1).last() == card@);
        }
        if contains_all(&chars_of(normal_names[i].as_str()), &name_terms) && contains_all(
            &chars_of(normal_descs[i].as_str()),
            &effect_terms,
        ) {
            out.push(card.duplicate());
            assert(card_views(out@) =~= kept.push(card@));
        }
        i += 1;
    }
    assert(views.take(cards.len() as int) =~= views);
    out
}

/// The names of `cards`, in their order.
pub open spec fn names_of(cards: Seq<CardDatumView>) -> Seq<Seq<char>> {
    cards.map_values(|card: CardDatumView| card.name)
}

/// The names that a list of several matches shows: the first twenty-five in
/// ascending order.
pub open spec fn listed(names: Seq<Seq<char>>) -> Seq<Seq<char>> {
    let sorted = sorted_texts(names);
    if sorted.len() > MAX_LISTED {
        sorted.take(MAX_LISTED as int)
    } else {
        sorted
    }
}

/// A view of a title and a text alone.
pub open spec fn plain_embed(title: Seq<char>, description: Seq<char>) -> EmbedView {
    EmbedView {
        title,
        description,
        url: None,
        color: None,
        image: None,
        footer: None,
        fields: Seq::<EmbedFieldView>::empty(),
    }
}

/// The view that says that nothing matched.
pub open spec fn nothing_found() -> EmbedView {
    plain_embed("No cards found"@, "No cards were found that match the provided filters"@)
}

/// The view that lists the names of several matches.
pub open spec fn several_found(names: Seq<Seq<char>>) -> EmbedView {
    plain_embed(
        "Multiple matches found"@,
        "Did you mean: \n- "@ + joined(listed(names), "\n- "@),
    )
}

/// What is shown for the matches `found`: for none, that nothing matched; for
/// one, its detail view, which fails where its page has no address; for more,
/// the list of their names.
pub open spec fn reply_for(found: Seq<CardDatumView>) -> Option<EmbedView> {
    if found.len() == 0 {
        Some(nothing_found())
    } else if found.len() == 1 {
        match card_link(found[0].name) {
            Some(link) => Some(detail_embed(found[0], link)),
            None => None,
        }
    } else {
        Some(several_found(names_of(found)))
    }
}

/// The view of an optional view.
pub open spec fn view_option(embed: Option<Embed>) -> Option<EmbedView> {
    match embed {
        Some(e) => Some(e@),
        None => None,
    }
}

/// Sorts texts in ascending order.
pub fn sorted_names(names: &Vec<String>) -> (out: Vec<String>)
    ensures
        string_views(out@) == sorted_texts(string_views(names@)),
{
    let mut keys: Vec<Vec<char>> = Vec::new();
    let mut i: usize = 0;
    while i < names.len()
        invariant
            i <= names.len(),
            keys@.len() == i,
            forall|k: int| 0 <= k < i ==> #[trigger] keys@[k]@ == names@[k]@,
        decreases names.len() - i,
    {
        keys.push(chars_of(names[i].as_str()));
        i += 1;
    }
    assert(piece_views(keys@) =~= string_views(names@));
    let order = sort_order(&keys);
    let ghost texts = string_views(names@);
    let mut out: Vec<String> = Vec::new();
    let mut j: usize = 0;
    while j < order.len()
        invariant
            j <= order.len(),
            out@.len() == j,
            order@.len() == names@.len(),
            forall|k: int| 0 <= k < order@.len() ==> #[trigger] order@[k] < names@.len(),
            forall|k: int| 0 <= k < j ==> #[trigger] out@[k]@ == names@[order@[k] as int]@,
        decreases order.len() - j,
    {
        out.push(names[order[j]].clone());
        j += 1;
    }
    assert(string_views(out@) =~= sorted_texts(texts)) by {
        assert forall|k: int| 0 <= k < out@.len() implies string_views(out@)[k] == sorted_texts(
            texts,
        )[k] by {
            assert(positions(order@)[k] == order@[k] as int);
        }
    }
    out
}

fn plain(title: &str, description: String) -> (out: Embed)
    ensures
        out@ == plain_embed(title@, description@),
{
    let out = Embed {
        title: String::from_str(title),
        description,
        url: None,
        color: None,
        image: None,
        footer: None,
        fields: Vec::new(),
    };
    assert(out@.fields =~= Seq::<EmbedFieldView>::empty());
    out
}

/// What is shown for a search of `cards` with the queries `card_name` and
/// `effect`: the reply for the cards that meet both.
pub fn get_reply(cards: &Vec<CardDatum>, card_name: Option<&str>, effect: Option<&str>) -> (out:
    Option<Embed>)
    ensures
        view_option(out) == reply_for(
            filtered(card_views(cards@), query_text(card_name), query_text(effect)),
        ),
{
    let found = filter_cards(cards, card_name, effect);
    reply(&found)
}

/// What is shown for the matches `found`.
pub fn reply(found: &Vec<CardDatum>) -> (out: Option<Embed>)
    ensures
        view_option(out) == reply_for(card_views(found@)),
{
    if found.len() == 0 {
        Some(
            plain(
                "No cards found",
                String::from_str("No cards were found that match the provided filters"),
            ),
        )
    } else if found.len() == 1 {
        found[0].make_embed()
    } else {
        let mut names: Vec<String> = Vec::new();
        let mut i: usize = 0;
        while i < found.len()
            invariant
                i <= found.len(),
                names@.len() == i,
                forall|k: int| 0 <= k < i ==> #[trigger] names@[k]@ == found@[k]@.name,
            decreases found.len() - i,
        {
            names.push(found[i].name.clone());
            i += 1;
        }
        assert(string_views(names@) =~= names_of(card_views(found@)));
        let mut sorted = sorted_names(&names);
        let ghost all = string_views(sorted@);
        if sorted.len() > MAX_LISTED {
            sorted.truncate(MAX_LISTED);
            assert(string_views(sorted@) =~= all.take(MAX_LISTED as int));
        }
        let mut text = String::from_str("Did you mean: \n- ");
        text.append(join(&sorted, "\n- ").as_str());
        Some(plain("Multiple matches found", text))
    }
}

/// Whether `name` completes `partial`: in lower case, it contains `partial` in
/// lower case.
pub open spec fn completes(name: Seq<char>, partial: Seq<char>) -> bool {
    contains_text(lowercase_of(name), lowercase_of(partial))
}

/// The names of the cards of `cards` that complete `partial`, in ascending
/// order.
pub open spec fn completions(cards: Seq<CardDatumView>, partial: Seq<char>) -> Seq<Seq<char>> {
    sorted_texts(names_of(cards.filter(|card: CardDatumView| completes(card.name, partial))))
}

/// The names of the cards whose name, in lower case, contains `partial` in
/// lower case, in ascending order.
pub fn autocomplete_search(cards: &Vec<CardDatum>, partial: &str) -> (out: Vec<String>)
    ensures
        string_views(out@) == completions(card_views(cards@), partial@),
{
    let wanted = chars_of(partial.to_lowercase().as_str());
    let ghost views = card_views(cards@);
    let ghost fits = |card: CardDatumView| completes(card.name, partial@);
    let mut names: Vec<String> = Vec::new();
    let mut i: usize = 0;
    proof {
        reveal(Seq::filter);
        assert(views.take(0) =~= Seq::<CardDatumView>::empty());
        assert(string_views(names@) =~= names_of(views.take(0).filter(fits)));
    }
    while i < cards.len()
        invariant
            i <= cards.len(),
            views == card_views(cards@),
            fits == |card: CardDatumView| completes(card.name, partial@),
            wanted@ == lowercase_of(partial@),
            string_views(names@) == names_of(views.take(i as int).filter(fits)),
        decreases cards.len() - i,
    {
        let card = &cards[i];
        let ghost kept = views.take(i as int).filter(fits);
        let ghost so_far = string_views(names@);
        proof {
            reveal(Seq::filter);
            assert(views.take(i + 1).drop_last() =~= views.take(i as int));
            assert(views.take(i + 1).last() == card@);
        }
        let lower = chars_of(card.name.as_str().to_lowercase().as_str());
        if contains(&lower, &wanted) {
            names.push(card.name.clone());
            assert(string_views(names@) =~= so_far.push(card@.name));
            assert(names_of(kept.push(card@)) =~= names_of(kept).push(card@.name));
        }
        i += 1;
    }
    assert(views.take(cards.len() as int) =~= views);
    sorted_names(&names)
}

/// The query that a message asks for in angle brackets: what stands between
/// `<` at its start and `>` at its end, unless that begins with `@`.
pub open spec fn bracketed(content: Seq<char>) -> Option<Seq<char>> {
    if content.len() >= 2 && content[0] == '<' && content.last() == '>' && (content.len() == 2
        || content[1] != '@') {
        Some(content.subrange(1, content.len() - 1))
    } else {
        None
    }
}

/// Reads the query that a message asks for in angle brackets, if it does.
pub fn inline_query(content: &str) -> (out: Option<String>)
    ensures
        match bracketed(content@) {
            Some(query) => out matches Some(q) && q@ == query,
            None => out is None,
        },
{
    let chars = chars_of(content);
    let n = chars.len();
    if n >= 2 && chars[0] == '<' && chars[n - 1] == '>' && (n == 2 || chars[1] != '@') {
        let mut inner: Vec<char> = Vec::new();
        let mut i: usize = 1;
        while i < n - 1
            invariant
                1 <= i <= n - 1,
                n == chars.len(),
                inner@ == chars@.subrange(1, i as int),
            decreases n - i,
        {
            inner.push(chars[i]);
            i += 1;
        }
        Some(string_of(&inner))
    } else {
        None
    }
}

/// Every text contains the empty text.
pub proof fn lemma_contains_empty(hay: Seq<char>)
    ensures
        contains_text(hay, Seq::<char>::empty()),
{
    assert(hay.subrange(0, 0) =~= Seq::<char>::empty());
    assert(occurs_at(hay, Seq::<char>::empty(), 0));
}

/// A query of which nothing is left after stripping has the single empty
/// sub-term, which every field contains.
pub proof fn lemma_empty_query_is_met(field: Seq<char>, query: Seq<char>)
    requires
        stripped(query).len() == 0,
    ensures
        terms_of(query) == seq![Seq::<char>::empty()],
        has_all_terms(field, terms_of(query)),
{
    let nothing = Seq::<char>::empty();
    assert(split_on(nothing, '*') =~= seq![nothing]);
    assert(trimmed(nothing) =~= nothing);
    assert(terms_of(query) =~= seq![nothing]);
    lemma_contains_empty(normalized(field));
}

/// A card is among the cards found exactly if it is among the cards searched
/// and meets both queries; the empty queries are met by every card.
pub proof fn lemma_filter_conjunction(
    cards: Seq<CardDatumView>,
    name: Seq<char>,
    effect: Seq<char>,
    card: CardDatumView,
)
    ensures
        filtered(cards, name, effect).contains(card) <==> cards.contains(card) && card_matches(
            card,
            name,
            effect,
        ),
        stripped(name).len() == 0 && stripped(effect).len() == 0 ==> filtered(cards, name, effect)
            == cards,
    decreases cards.len(),
{
    reveal(Seq::filter);
    let wanted = |c: CardDatumView| card_matches(c, name, effect);
    if cards.len() > 0 {
        let front = cards.drop_last();
        lemma_filter_conjunction(front, name, effect, card);
        let found = filtered(front, name, effect);
        if wanted(cards.last()) {
            assert(filtered(cards, name, effect) == found.push(cards.last()));
            if found.push(cards.last()).contains(card) {
                let at = choose|i: int|
                    0 <= i < found.len() + 1 && found.push(cards.last())[i] == card;
                if at < found.len() {
                    assert(found[at] == card);
                }
            }
            if found.contains(card) {
                let at = choose|i: int| 0 <= i < found.len() && found[i] == card;
                assert(found.push(cards.last())[at] == card);
            }
            if cards.last() == card {
                assert(found.push(cards.last())[found.len() as int] == card);
            }
        }
        if cards.contains(card) {
            let at = choose|i: int| 0 <= i < cards.len() && cards[i] == card;
            if at < front.len() {
                assert(front[at] == card);
            }
        }
        if front.contains(card) {
            let at = choose|i: int| 0 <= i < front.len() && front[i] == card;
            assert(cards[at] == card);
        }
        if stripped(name).len() == 0 && stripped(effect).len() == 0 {
            lemma_empty_query_is_met(cards.last().name, name);
            lemma_empty_query_is_met(cards.last().desc, effect);
            assert(front.push(cards.last()) =~= cards);
        }
    } else {
        assert(filtered(cards, name, effect) =~= cards);
    }
}

/// The names listed for several matches are in ascending order, and there
/// are as many as there are matches, up to twenty-five.
pub proof fn lemma_listed_is_sorted(names: Seq<Seq<char>>)
    ensures
        listed(names).len() == if names.len() > MAX_LISTED {
            MAX_LISTED as int
        } else {
            names.len() as int
        },
        forall|i: int, j: int|
            0 <= i < j < listed(names).len() ==> crate::text::text_le(
                #[trigger] listed(names)[i],
                #[trigger] listed(names)[j],
            ),
        forall|i: int| 0 <= i < listed(names).len() ==> names.contains(#[trigger] listed(names)[i]),
{
    lemma_sorted_order_is_stable(names);
    let order = sorted_order(names);
    let sorted = sorted_texts(names);
    assert forall|i: int, j: int| 0 <= i < j < listed(names).len() implies crate::text::text_le(
        #[trigger] listed(names)[i],
        #[trigger] listed(names)[j],
    ) by {
        assert(listed(names)[i] == names[order[i]]);
        assert(listed(names)[j] == names[order[j]]);
    }
    assert forall|i: int| 0 <= i < listed(names).len() implies names.contains(
        #[trigger] listed(names)[i],
    ) by {
        assert(listed(names)[i] == names[order[i]]);
    }
}

} // verus!

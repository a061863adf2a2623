//! Text normalisation for case- and punctuation-insensitive matching.

use vstd::prelude::*;

verus! {

/// The pattern that matches one disallowed punctuation character.
pub const DISALLOWED_PATTERN: &'static str = "[?/'!,:&.\"]";

/// The pattern that matches one maximal run of white space.
pub const SPACE_RUN_PATTERN: &'static str = "\\s+";

/// The punctuation characters that matching ignores.
pub open spec fn is_disallowed(c: char) -> bool {
    c == '?' || c == '/' || c == '\'' || c == '!' || c == ',' || c == ':' || c == '&' || c == '.'
        || c == '"'
}

/// `s` with every disallowed character replaced by `with`.
pub open spec fn replace_disallowed(s: Seq<char>, with: Seq<char>) -> Seq<char>
    decreases s.len(),
{
    if s.len() == 0 {
        Seq::<char>::empty()
    } else if is_disallowed(s.last()) {
        replace_disallowed(s.drop_last(), with) + with
    } else {
        replace_disallowed(s.drop_last(), with).push(s.last())
    }
}

/// `s` with every maximal run of white space replaced by `with`.
pub open spec fn replace_space_runs(s: Seq<char>, with: Seq<char>) -> Seq<char>
    decreases s.len(),
{
    if s.len() == 0 {
        Seq::<char>::empty()
    } else if !crate::text::is_white_space(s.last()) {
        replace_space_runs(s.drop_last(), with).push(s.last())
    } else if s.len() >= 2 && crate::text::is_white_space(s[s.len() - 2]) {
        replace_space_runs(s.drop_last(), with)
    } else {
        replace_space_runs(s.drop_last(), with) + with
    }
}

/// Compiles `pattern` once with `regex::Regex::new` and applies
/// `regex::Regex::replace_all` to each of `texts` with the replacement `with`.
///
/// The contract covers the two patterns this library uses and a replacement
/// without `$`, which the regex crate inserts literally. A character class
/// matches every single character of the class, so each one is replaced; `\s+`
/// matches every maximal run of characters with the Unicode property
/// White_Space, so each run is replaced once. Text outside the matches is kept.
#[verifier::external_body]
pub(crate) fn regex_replace_all(pattern: &str, texts: &Vec<&str>, with: &str) -> (out: Vec<String>)
    requires
        pattern@ == DISALLOWED_PATTERN@ || pattern@ == SPACE_RUN_PATTERN@,
        !with@.contains('$'),
    ensures
        out@.len() == texts@.len(),
        pattern@ == DISALLOWED_PATTERN@ ==> forall|i: int|
            0 <= i < out@.len() ==> (#[trigger] out@[i])@ == replace_disallowed(texts@[i]@, with@),
        pattern@ == SPACE_RUN_PATTERN@ ==> forall|i: int|
            0 <= i < out@.len() ==> (#[trigger] out@[i])@ == replace_space_runs(texts@[i]@, with@),
{
    let re = regex::Regex::new(pattern).unwrap();
    texts.iter().map(|text| re.replace_all(text, with).into_owned()).collect()
}

/// The lowercase form that `str::to_lowercase` gives a text.
pub uninterp spec fn lowercase_of(s: Seq<char>) -> Seq<char>;

/// `str::to_lowercase` returns the lowercase equivalent of the text, by the
/// Unicode case mapping; the result depends on the text alone.
pub assume_specification[ str::to_lowercase ](s: &str) -> (out: String)
    ensures
        out@ == lowercase_of(s@),
;

/// `s` without its disallowed characters.
pub open spec fn stripped(s: Seq<char>) -> Seq<char> {
    replace_disallowed(s, Seq::<char>::empty())
}

/// The normal form of a text: its disallowed punctuation removed, the rest in
/// lower case. Where nothing is left, the normal form is empty.
pub open spec fn normalized(s: Seq<char>) -> Seq<char> {
    if stripped(s).len() == 0 {
        Seq::<char>::empty()
    } else {
        lowercase_of(stripped(s))
    }
}

/// Normalises each of `texts`.
pub fn normalize_all(texts: &Vec<&str>) -> (out: Vec<String>)
    ensures
        out@.len() == texts@.len(),
        forall|i: int| 0 <= i < out@.len() ==> (#[trigger] out@[i])@ == normalized(texts@[i]@),
{
    proof {
        reveal_strlit("");
        assert(""@ =~= Seq::<char>::empty());
    }
    let bare = regex_replace_all(DISALLOWED_PATTERN, texts, "");
    let mut out: Vec<String> = Vec::new();
    let mut i: usize = 0;
    while i < bare.len()
        invariant
            i <= bare.len(),
            out@.len() == i,
            bare@.len() == texts@.len(),
            forall|k: int| 0 <= k < bare@.len() ==> (#[trigger] bare@[k])@ == stripped(texts@[k]@),
            forall|k: int| 0 <= k < i ==> (#[trigger] out@[k])@ == normalized(texts@[k]@),
        decreases bare.len() - i,
    {
        if bare[i].as_str().is_empty() {
            let nothing = String::new();
            assert(bare@[i as int]@ =~= Seq::<char>::empty());
            out.push(nothing);
        } else {
            out.push(bare[i].as_str().to_lowercase());
        }
        i += 1;
    }
    out
}

/// Normalises a card name, an effect text or a search term.
pub fn normalize_search_term(term: &str) -> (out: String)
    ensures
        out@ == normalized(term@),
{
    let mut one = normalize_all(&vec![term]);
    one.pop().unwrap()
}

/// No disallowed character is left after stripping.
pub proof fn lemma_stripped_is_clean(s: Seq<char>)
    ensures
        forall|i: int| 0 <= i < stripped(s).len() ==> !is_disallowed(#[trigger] stripped(s)[i]),
        stripped(s).len() <= s.len(),
    decreases s.len(),
{
    if s.len() > 0 {
        lemma_stripped_is_clean(s.drop_last());
        assert(stripped(s.drop_last()) + Seq::<char>::empty() =~= stripped(s.drop_last()));
    }
}

/// Stripping leaves a text without disallowed characters as it is.
pub proof fn lemma_stripped_of_clean(s: Seq<char>)
    requires
        forall|i: int| 0 <= i < s.len() ==> !is_disallowed(#[trigger] s[i]),
    ensures
        stripped(s) == s,
    decreases s.len(),
{
    if s.len() > 0 {
        lemma_stripped_of_clean(s.drop_last());
        assert(s.drop_last().push(s.last()) =~= s);
    }
}

/// Stripping twice gives what stripping once gives.
pub proof fn lemma_stripped_idempotent(s: Seq<char>)
    ensures
        stripped(stripped(s)) == stripped(s),
{
    lemma_stripped_is_clean(s);
    lemma_stripped_of_clean(stripped(s));
}

} // verus!

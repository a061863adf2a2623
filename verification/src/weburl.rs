//! Web addresses: what deck validation and the card view need from the `url`
//! crate, as plain values.

use vstd::prelude::*;

verus! {

/// The error of `url::Url::parse`.
#[verifier::external_type_specification]
#[verifier::external_body]
pub struct ExParseError(url::ParseError);

/// What the logic reads of a parsed address.
pub struct UrlParts {
    /// Whether the address names a host.
    pub has_host: bool,
    /// The decoded name and value of each parameter of the query, in order.
    pub pairs: Vec<(String, String)>,
}

/// The views of query parameters.
pub open spec fn pair_views(pairs: Seq<(String, String)>) -> Seq<(Seq<char>, Seq<char>)> {
    Seq::new(pairs.len(), |i: int| (pairs[i].0@, pairs[i].1@))
}

impl UrlParts {
    /// The host flag and the parameters as texts.
    pub open spec fn view(&self) -> (bool, Seq<(Seq<char>, Seq<char>)>) {
        (self.has_host, pair_views(self.pairs@))
    }
}

/// What parsing `text` as an absolute address gives: nothing where it is none,
/// else whether it names a host, and the parameters of its query.
pub uninterp spec fn url_parts(text: Seq<char>) -> Option<(bool, Seq<(Seq<char>, Seq<char>)>)>;

/// Parses `text` with `url::Url::parse` and reads the result through
/// `Url::has_host` and `Url::query_pairs`. The outcome depends on `text` alone,
/// so it is named `url_parts(text)`; nothing more is claimed of it.
#[verifier::external_body]
pub(crate) fn split_url(text: &str) -> (out: Result<UrlParts, url::ParseError>)
    ensures
        match out {
            Ok(parts) => url_parts(text@) == Some(parts@),
            Err(_) => url_parts(text@) is None,
        },
{
    let url = url::Url::parse(text)?;
    let pairs = url.query_pairs().map(|(k, v)| (k.into_owned(), v.into_owned())).collect();
    Ok(UrlParts { has_host: url.has_host(), pairs })
}

/// The address `base` with its query replaced by `query`, percent-encoded as
/// the `url` crate does; nothing where `base` is no absolute address.
pub uninterp spec fn url_with_query(base: Seq<char>, query: Seq<char>) -> Option<Seq<char>>;

/// Parses `base` with `url::Url::parse`, replaces its query with
/// `Url::set_query` and returns the address as text. The outcome depends on
/// the two arguments alone, so it is named `url_with_query(base, query)`. A
/// base with a fragment is left out: with one the crate measures the address
/// again after the query was added.
#[verifier::external_body]
pub(crate) fn set_url_query(base: &str, query: &str) -> (out: Result<String, url::ParseError>)
    requires
        !base@.contains('#'),
    ensures
        match out {
            Ok(link) => url_with_query(base@, query@) == Some(link@),
            Err(_) => url_with_query(base@, query@) is None,
        },
{
    let mut url = url::Url::parse(base)?;
    url.set_query(Some(query));
    Ok(url.to_string())
}

} // verus!

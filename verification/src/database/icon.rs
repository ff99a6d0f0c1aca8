//! Icon links of factions and roles.
use vstd::prelude::*;

verus! {

/// A parsed URL (`url::Url`); the library carries it and never looks inside.
#[verifier::external_type_specification]
#[verifier::external_body]
pub struct ExUrl(url::Url);

/// The URL that `url::Url::parse` makes of a text, where it accepts the text.
pub uninterp spec fn url_parsed(text: Seq<char>) -> Option<url::Url>;

/// Whether `url::Url::parse` accepts the text.
pub open spec fn url_parses(text: Seq<char>) -> bool {
    url_parsed(text) is Some
}

/// The icon a stored icon link gives: the URL it parses to, if any.
pub open spec fn icon_of(icon: Option<String>) -> Option<url::Url> {
    match icon {
        Some(i) => url_parsed(i@),
        None => None,
    }
}

/// Calls `str::parse::<url::Url>` (that is `Url::parse`) and keeps the URL where
/// it succeeds. Claims that the result is `url_parsed` of the text: the same
/// text always parses to the same URL, or always fails.
#[verifier::external_body]
pub(crate) fn parse_url(text: &str) -> (r: Option<url::Url>)
    ensures
        r == url_parsed(text@),
{
    text.parse::<url::Url>().ok()
}

/// An icon link as stored, parsed where it is a valid URL; an invalid link is
/// dropped silently.
pub fn parse_icon(icon: &Option<String>) -> (r: Option<url::Url>)
    ensures
        r == icon_of(*icon),
        r is Some <==> (icon matches Some(i) && url_parses(i@)),
{
    match icon {
        Some(i) => parse_url(i.as_str()),
        None => None,
    }
}

} // verus!

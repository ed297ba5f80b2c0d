//! The one call into the `url` crate: parsing an absolute URL for its scheme
//! and its normalized form.

use vstd::prelude::*;

verus! {

/// What `url::Url::parse` makes of `input`, read through `url::Url::scheme`:
/// `None` where the parser refuses `input`, else the scheme of the parsed URL.
pub uninterp spec fn parsed_url_scheme(input: Seq<char>) -> Option<Seq<char>>;

/// What `url::Url::parse` makes of `input`, read through `url::Url::as_str`:
/// `None` where the parser refuses `input`, else the parsed URL's
/// serialization (its normalized form).
pub uninterp spec fn parsed_url_serialization(input: Seq<char>) -> Option<Seq<char>>;

/// The parts of a parsed URL that links depend on.
pub struct ParsedUrl {
    /// The scheme, without the `:`.
    pub scheme: String,
    /// The normalized form of the whole URL.
    pub serialization: String,
}

/// Calls `url::Url::parse` on `input` and, on success, reads the parsed URL's
/// `url::Url::scheme` and `url::Url::as_str`. The contract claims that the
/// outcome is a function of `input` alone (`parsed_url_scheme` and
/// `parsed_url_serialization`, which refuse the same inputs); what the parser
/// accepts, and how it normalizes, is left unsaid.
#[verifier::external_body]
pub(crate) fn parse_url(input: &str) -> (res: Option<ParsedUrl>)
    ensures
        match res {
            Some(parsed) => {
                &&& parsed_url_scheme(input@) == Some(parsed.scheme@)
                &&& parsed_url_serialization(input@) == Some(parsed.serialization@)
            },
            None => {
                &&& parsed_url_scheme(input@) is None
                &&& parsed_url_serialization(input@) is None
            },
        },
{
    match url::Url::parse(input) {
        Ok(parsed) => Some(
            ParsedUrl {
                scheme: parsed.scheme().to_owned(),
                serialization: parsed.as_str().to_owned(),
            },
        ),
        Err(_) => None,
    }
}

} // verus!

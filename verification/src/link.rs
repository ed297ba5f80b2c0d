//! A single pane link and its validation.

use vstd::prelude::*;
use vstd::string::{StrSliceExecFns, StringExecFns};

use crate::text::{contains_control, decimal, decimal_string, has_control, trim, trimmed};
use crate::url_scheme::{parse_url, parsed_url_scheme, parsed_url_serialization, ParsedUrl};

verus! {

/// The most links a pane holds.
pub const MAX_PANE_LINKS: usize = 3;

/// The most characters a label may have, after trimming.
pub const MAX_PANE_LINK_LABEL_CHARS: usize = 64;

/// The most characters a URL may have: both the URL as given, once trimmed,
/// and the normalized form that the URL parser makes of it.
pub const MAX_PANE_LINK_URL_CHARS: usize = 2048;

/// A `{label, url}` link attached to a pane.
#[derive(Clone, Debug, PartialEq, Eq)]
pub struct PaneLink {
    pub label: String,
    pub url: String,
}

/// The mathematical value of a `PaneLink`.
pub struct PaneLinkView {
    pub label: Seq<char>,
    pub url: Seq<char>,
}

impl View for PaneLink {
    type V = PaneLinkView;

    open spec fn view(&self) -> PaneLinkView {
        PaneLinkView { label: self.label@, url: self.url@ }
    }
}

/// Why a link, or a change to a pane's links, was refused.
#[derive(Clone, Debug, PartialEq, Eq)]
pub enum PaneLinkError {
    EmptyLabel,
    LabelTooLong { max: usize },
    LabelHasControlCharacters,
    UrlTooLong { max: usize },
    UrlHasControlCharacters,
    UrlNotParseable,
    UrlSchemeNotAllowed { scheme: String },
    TooManyLinks { max: usize },
    NoSuchLabel { label: String },
}

/// The mathematical value of a `PaneLinkError`.
pub enum PaneLinkErrorView {
    EmptyLabel,
    LabelTooLong { max: usize },
    LabelHasControlCharacters,
    UrlTooLong { max: usize },
    UrlHasControlCharacters,
    UrlNotParseable,
    UrlSchemeNotAllowed { scheme: Seq<char> },
    TooManyLinks { max: usize },
    NoSuchLabel { label: Seq<char> },
}

impl View for PaneLinkError {
    type V = PaneLinkErrorView;

    open spec fn view(&self) -> PaneLinkErrorView {
        match self {
            PaneLinkError::EmptyLabel => PaneLinkErrorView::EmptyLabel,
            PaneLinkError::LabelTooLong { max } => PaneLinkErrorView::LabelTooLong { max: *max },
            PaneLinkError::LabelHasControlCharacters => PaneLinkErrorView::LabelHasControlCharacters,
            PaneLinkError::UrlTooLong { max } => PaneLinkErrorView::UrlTooLong { max: *max },
            PaneLinkError::UrlHasControlCharacters => PaneLinkErrorView::UrlHasControlCharacters,
            PaneLinkError::UrlNotParseable => PaneLinkErrorView::UrlNotParseable,
            PaneLinkError::UrlSchemeNotAllowed { scheme } => PaneLinkErrorView::UrlSchemeNotAllowed {
                scheme: scheme@,
            },
            PaneLinkError::TooManyLinks { max } => PaneLinkErrorView::TooManyLinks { max: *max },
            PaneLinkError::NoSuchLabel { label } => PaneLinkErrorView::NoSuchLabel {
                label: label@,
            },
        }
    }
}

/// A validation outcome taken by its view.
pub open spec fn link_result_view(r: Result<PaneLink, PaneLinkError>) -> Result<
    PaneLinkView,
    PaneLinkErrorView,
> {
    match r {
        Ok(link) => Ok(link@),
        Err(e) => Err(e@),
    }
}

/// The schemes a link may use: `http` and `https`.
pub open spec fn is_web_scheme(scheme: Seq<char>) -> bool {
    scheme == seq!['h', 't', 't', 'p'] || scheme == seq!['h', 't', 't', 'p', 's']
}

/// A parse outcome taken by its view: the scheme and the normalized form.
pub open spec fn parsed_url_view(parsed: Option<ParsedUrl>) -> Option<(Seq<char>, Seq<char>)> {
    match parsed {
        Some(parsed) => Some((parsed.scheme@, parsed.serialization@)),
        None => None,
    }
}

/// What the URL parser makes of `url`: its scheme and its normalized form,
/// or `None` where it refuses `url`.
pub open spec fn url_parse_of(url: Seq<char>) -> Option<(Seq<char>, Seq<char>)> {
    match (parsed_url_scheme(url), parsed_url_serialization(url)) {
        (Some(scheme), Some(serialization)) => Some((scheme, serialization)),
        _ => None,
    }
}

/// The link made of a checked label and URL, given what the URL parser made
/// of the URL: refused unless the URL parsed, its normalized form has at most
/// `MAX_PANE_LINK_URL_CHARS` characters and its scheme is `http` or `https`.
pub open spec fn link_for_parsed_url(
    label: Seq<char>,
    url: Seq<char>,
    parsed: Option<(Seq<char>, Seq<char>)>,
) -> Result<PaneLinkView, PaneLinkErrorView> {
    match parsed {
        None => Err(PaneLinkErrorView::UrlNotParseable),
        Some((scheme, serialization)) => if serialization.len() > MAX_PANE_LINK_URL_CHARS {
            Err(PaneLinkErrorView::UrlTooLong { max: MAX_PANE_LINK_URL_CHARS })
        } else if is_web_scheme(scheme) {
            Ok(PaneLinkView { label, url })
        } else {
            Err(PaneLinkErrorView::UrlSchemeNotAllowed { scheme })
        },
    }
}

/// What validating `label` and `url` gives. The checks run in order: empty
/// label, label length, control codes in the label, length of the trimmed
/// URL, control codes in the URL, then what the URL parser makes of the URL
/// (refused, normalized form too long, scheme not `http` or `https`). The link
/// keeps the URL as given, once trimmed.
pub open spec fn validation(label: Seq<char>, url: Seq<char>) -> Result<
    PaneLinkView,
    PaneLinkErrorView,
> {
    let label = trimmed(label);
    let url = trimmed(url);
    if label.len() == 0 {
        Err(PaneLinkErrorView::EmptyLabel)
    } else if label.len() > MAX_PANE_LINK_LABEL_CHARS {
        Err(PaneLinkErrorView::LabelTooLong { max: MAX_PANE_LINK_LABEL_CHARS })
    } else if has_control(label) {
        Err(PaneLinkErrorView::LabelHasControlCharacters)
    } else if url.len() > MAX_PANE_LINK_URL_CHARS {
        Err(PaneLinkErrorView::UrlTooLong { max: MAX_PANE_LINK_URL_CHARS })
    } else if has_control(url) {
        Err(PaneLinkErrorView::UrlHasControlCharacters)
    } else {
        link_for_parsed_url(label, url, url_parse_of(url))
    }
}

fn is_web_scheme_exec(scheme: &String) -> (res: bool)
    ensures
        res == is_web_scheme(scheme@),
{
    let http = "http".to_owned();
    let https = "https".to_owned();
    proof {
        reveal_strlit("http");
        reveal_strlit("https");
        assert(http@ =~= seq!['h', 't', 't', 'p']);
        assert(https@ =~= seq!['h', 't', 't', 'p', 's']);
    }
    let is_http = scheme.eq(&http);
    let is_https = scheme.eq(&https);
    is_http || is_https
}

impl PaneLink {
    /// The link made of a label and URL that passed their checks, given what
    /// the URL parser made of the URL (`None` where it refused the URL).
    pub fn with_parsed_url(label: String, url: String, parsed: Option<ParsedUrl>) -> (res: Result<
        PaneLink,
        PaneLinkError,
    >)
        ensures
            link_result_view(res) == link_for_parsed_url(label@, url@, parsed_url_view(parsed)),
    {
        match parsed {
            None => Err(PaneLinkError::UrlNotParseable),
            Some(parsed) => {
                if parsed.serialization.as_str().unicode_len() > MAX_PANE_LINK_URL_CHARS {
                    Err(PaneLinkError::UrlTooLong { max: MAX_PANE_LINK_URL_CHARS })
                } else if is_web_scheme_exec(&parsed.scheme) {
                    Ok(PaneLink { label, url })
                } else {
                    Err(PaneLinkError::UrlSchemeNotAllowed { scheme: parsed.scheme })
                }
            },
        }
    }

    /// Checks a label and a URL and builds the link: both are trimmed; the
    /// label must be 1 to 64 characters without control codes; the URL must
    /// have at most 2048 characters, hold no control code and parse as an
    /// absolute `http` or `https` URL whose normalized form also has at most
    /// 2048 characters. The first check that fails names the error.
    ///
    /// The link holds the trimmed label and the trimmed URL as given, not the
    /// parser's normalized form of the URL (so `https://a` stays `https://a`).
    pub fn validate(label: &str, url: &str) -> (res: Result<PaneLink, PaneLinkError>)
        ensures
            link_result_view(res) == validation(label@, url@),
    {
        let label = trim(label);
        let label_len = label.unicode_len();
        if label_len == 0 {
            return Err(PaneLinkError::EmptyLabel);
        }
        if label_len > MAX_PANE_LINK_LABEL_CHARS {
            return Err(PaneLinkError::LabelTooLong { max: MAX_PANE_LINK_LABEL_CHARS });
        }
        if contains_control(label) {
            return Err(PaneLinkError::LabelHasControlCharacters);
        }
        let url = trim(url);
        if url.unicode_len() > MAX_PANE_LINK_URL_CHARS {
            return Err(PaneLinkError::UrlTooLong { max: MAX_PANE_LINK_URL_CHARS });
        }
        if contains_control(url) {
            return Err(PaneLinkError::UrlHasControlCharacters);
        }
        let parsed = parse_url(url);
        PaneLink::with_parsed_url(label.to_owned(), url.to_owned(), parsed)
    }
}

/// The message that describes an error.
pub open spec fn message(e: PaneLinkErrorView) -> Seq<char> {
    match e {
        PaneLinkErrorView::EmptyLabel => "label cannot be empty"@,
        PaneLinkErrorView::LabelTooLong { max } => "label is longer than "@ + decimal(max as nat)
            + " characters"@,
        PaneLinkErrorView::LabelHasControlCharacters => "label cannot contain control characters"@,
        PaneLinkErrorView::UrlTooLong { max } => "url is longer than "@ + decimal(max as nat)
            + " characters"@,
        PaneLinkErrorView::UrlHasControlCharacters => "url cannot contain control characters"@,
        PaneLinkErrorView::UrlNotParseable => "url must be an absolute http(s) URL"@,
        PaneLinkErrorView::UrlSchemeNotAllowed { scheme } => "url scheme \""@ + scheme
            + "\" is not allowed; use http or https"@,
        PaneLinkErrorView::TooManyLinks { max } => "pane already has "@ + decimal(max as nat)
            + " links"@,
        PaneLinkErrorView::NoSuchLabel { label } => "no link with label \""@ + label + "\""@,
    }
}

impl PaneLinkError {
    /// The message that describes this error.
    pub fn to_string(&self) -> (res: String)
        ensures
            res@ == message(self@),
    {
        match self {
            PaneLinkError::EmptyLabel => "label cannot be empty".to_owned(),
            PaneLinkError::LabelTooLong { max } => {
                let mut res = "label is longer than ".to_owned();
                res.append(decimal_string(*max).as_str());
                res.append(" characters");
                res
            },
            PaneLinkError::LabelHasControlCharacters => {
                "label cannot contain control characters".to_owned()
            },
            PaneLinkError::UrlTooLong { max } => {
                let mut res = "url is longer than ".to_owned();
                res.append(decimal_string(*max).as_str());
                res.append(" characters");
                res
            },
            PaneLinkError::UrlHasControlCharacters => {
                "url cannot contain control characters".to_owned()
            },
            PaneLinkError::UrlNotParseable => "url must be an absolute http(s) URL".to_owned(),
            PaneLinkError::UrlSchemeNotAllowed { scheme } => {
                let mut res = "url scheme \"".to_owned();
                res.append(scheme.as_str());
                res.append("\" is not allowed; use http or https");
                res
            },
            PaneLinkError::TooManyLinks { max } => {
                let mut res = "pane already has ".to_owned();
                res.append(decimal_string(*max).as_str());
                res.append(" links");
                res
            },
            PaneLinkError::NoSuchLabel { label } => {
                let mut res = "no link with label \"".to_owned();
                res.append(label.as_str());
                res.append("\"");
                res
            },
        }
    }
}

} // verus!

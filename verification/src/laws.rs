//! What holds of the link operations across calls and for every input.

use vstd::prelude::*;

use crate::link::{
    is_web_scheme, validation, PaneLinkErrorView, PaneLinkView, MAX_PANE_LINKS,
    MAX_PANE_LINK_LABEL_CHARS, MAX_PANE_LINK_URL_CHARS,
};
use crate::link::link_for_parsed_url;
use crate::links::{label_position, lemma_label_position, removal, upsert};
use crate::text::{has_control, is_white_space_spec, trim_end, trim_start, trimmed};
use crate::url_scheme::{parsed_url_scheme, parsed_url_serialization};

verus! {

/// No two links of `links` share a label.
pub open spec fn labels_unique(links: Seq<PaneLinkView>) -> bool {
    forall|i: int, j: int| 0 <= i < j < links.len() ==> links[i].label != links[j].label
}

proof fn lemma_trim_start_shape(s: Seq<char>)
    ensures
        trim_start(s).len() <= s.len(),
        trim_start(s) == s.subrange(s.len() - trim_start(s).len(), s.len() as int),
        trim_start(s).len() == 0 || !is_white_space_spec(trim_start(s)[0]),
        forall|j: int|
            0 <= j < s.len() - trim_start(s).len() ==> is_white_space_spec(#[trigger] s[j]),
    decreases s.len(),
{
    if s.len() > 0 && is_white_space_spec(s[0]) {
        lemma_trim_start_shape(s.drop_first());
        assert forall|j: int| 0 <= j < s.len() - trim_start(s).len() implies is_white_space_spec(
            #[trigger] s[j],
        ) by {
            if j > 0 {
                assert(s[j] == s.drop_first()[j - 1]);
            }
        }
        assert(s.drop_first().subrange(
            s.drop_first().len() - trim_start(s).len(),
            s.drop_first().len() as int,
        ) =~= s.subrange(s.len() - trim_start(s).len(), s.len() as int));
    } else {
        assert(s.subrange(0, s.len() as int) =~= s);
    }
}

proof fn lemma_trim_end_shape(s: Seq<char>)
    ensures
        trim_end(s).len() <= s.len(),
        trim_end(s) == s.subrange(0, trim_end(s).len() as int),
        trim_end(s).len() == 0 || !is_white_space_spec(trim_end(s).last()),
        forall|j: int| trim_end(s).len() <= j < s.len() ==> is_white_space_spec(#[trigger] s[j]),
    decreases s.len(),
{
    if s.len() > 0 && is_white_space_spec(s.last()) {
        lemma_trim_end_shape(s.drop_last());
        assert forall|j: int| trim_end(s).len() <= j < s.len() implies is_white_space_spec(
            #[trigger] s[j],
        ) by {
            if j < s.len() - 1 {
                assert(s[j] == s.drop_last()[j]);
            }
        }
        assert(s.drop_last().subrange(0, trim_end(s).len() as int) =~= s.subrange(
            0,
            trim_end(s).len() as int,
        ));
    } else {
        assert(s.subrange(0, s.len() as int) =~= s);
    }
}

/// Trimming is idempotent: a trimmed text has no white space left at either
/// end, and trimming it again leaves it as it is.
pub proof fn law_trim_idempotent(s: Seq<char>)
    ensures
        trimmed(trimmed(s)) == trimmed(s),
        trimmed(s).len() == 0 || (!is_white_space_spec(trimmed(s)[0])
            && !is_white_space_spec(trimmed(s).last())),
{
    let u = trim_start(s);
    let t = trim_end(u);
    lemma_trim_start_shape(s);
    lemma_trim_end_shape(u);
    if t.len() > 0 {
        assert(t[0] == u[0]);
    }
    assert(trim_start(t) == t);
    assert(trim_end(t) == t);
}

/// A link that validation accepts holds the trimmed label and the trimmed
/// URL; the label has 1 to 64 characters and no control code; the URL has at
/// most 2048 characters and no control code, and the URL parser finds in it an
/// `http` or `https` scheme and a normalized form of at most 2048 characters.
pub proof fn law_valid_link_is_well_formed(label: Seq<char>, url: Seq<char>)
    ensures
        validation(label, url) matches Ok(link) ==> {
            &&& link.label == trimmed(label)
            &&& link.url == trimmed(url)
            &&& 1 <= link.label.len() <= MAX_PANE_LINK_LABEL_CHARS
            &&& !has_control(link.label)
            &&& link.url.len() <= MAX_PANE_LINK_URL_CHARS
            &&& !has_control(link.url)
            &&& parsed_url_scheme(link.url) matches Some(scheme) && is_web_scheme(scheme)
            &&& parsed_url_serialization(link.url) matches Some(normalized) && normalized.len()
                <= MAX_PANE_LINK_URL_CHARS
        },
{
}

/// Validating the label and URL of a validated link accepts them again and
/// gives the same link.
pub proof fn law_revalidation_is_stable(label: Seq<char>, url: Seq<char>)
    ensures
        validation(label, url) matches Ok(link) ==> validation(link.label, link.url) == Ok::<
            PaneLinkView,
            PaneLinkErrorView,
        >(link),
{
    law_trim_idempotent(label);
    law_trim_idempotent(url);
}

/// A refused upsert or removal leaves the list as it was.
pub proof fn law_refusal_changes_nothing(
    links: Seq<PaneLinkView>,
    link: PaneLinkView,
    label: Seq<char>,
)
    ensures
        upsert(links, link).1 is Err ==> upsert(links, link).0 == links,
        removal(links, label).1 is Err ==> removal(links, label).0 == links,
{
}

/// An upsert never takes a list of at most `MAX_PANE_LINKS` links past that
/// cap.
pub proof fn law_upsert_respects_cap(links: Seq<PaneLinkView>, link: PaneLinkView)
    requires
        links.len() <= MAX_PANE_LINKS,
    ensures
        upsert(links, link).0.len() <= MAX_PANE_LINKS,
{
    lemma_label_position(links, link.label);
}

/// An upsert of a label that the list holds keeps the list's length, puts
/// the new link where that label stood, and leaves every other link as it
/// was.
pub proof fn law_upsert_replaces_in_place(links: Seq<PaneLinkView>, link: PaneLinkView, i: int)
    requires
        label_position(links, link.label) == Some(i),
    ensures
        upsert(links, link).0.len() == links.len(),
        upsert(links, link).0[i] == link,
        forall|j: int| 0 <= j < links.len() && j != i ==> upsert(links, link).0[j] == links[j],
{
    lemma_label_position(links, link.label);
}

/// Upserts keep labels unique.
pub proof fn law_upsert_keeps_labels_unique(links: Seq<PaneLinkView>, link: PaneLinkView)
    requires
        labels_unique(links),
    ensures
        labels_unique(upsert(links, link).0),
{
    lemma_label_position(links, link.label);
    let after = upsert(links, link).0;
    if label_position(links, link.label) is None && links.len() < MAX_PANE_LINKS {
        assert forall|i: int, j: int| 0 <= i < j < after.len() implies after[i].label
            != after[j].label by {
            if j == links.len() {
                assert(links[i].label != link.label);
            }
        }
    }
}

/// Removals keep labels unique.
pub proof fn law_removal_keeps_labels_unique(links: Seq<PaneLinkView>, label: Seq<char>)
    requires
        labels_unique(links),
    ensures
        labels_unique(removal(links, label).0),
{
    lemma_label_position(links, trimmed(label));
    let after = removal(links, label).0;
    if let Some(k) = label_position(links, trimmed(label)) {
        assert forall|i: int, j: int| 0 <= i < j < after.len() implies after[i].label
            != after[j].label by {
            let i0 = if i < k {
                i
            } else {
                i + 1
            };
            let j0 = if j < k {
                j
            } else {
                j + 1
            };
            assert(after[i] == links[i0]);
            assert(after[j] == links[j0]);
        }
    }
}

/// Upserting the same link twice: the second upsert succeeds, reports no
/// change and leaves the list as the first one left it.
pub proof fn law_upsert_again_is_no_op(links: Seq<PaneLinkView>, link: PaneLinkView)
    requires
        upsert(links, link).1 is Ok,
    ensures
        upsert(upsert(links, link).0, link) == (upsert(links, link).0, Ok::<
            bool,
            PaneLinkErrorView,
        >(false)),
{
    let after = upsert(links, link).0;
    lemma_label_position(links, link.label);
    lemma_label_position(after, link.label);
    match label_position(links, link.label) {
        Some(i) => {
            if label_position(after, link.label) != Some(i) {
                assert(after[i].label == link.label);
            }
        },
        None => {
            assert(after.drop_last() =~= links);
        },
    }
}

/// Removing the label of a link that was just appended gives back the list
/// as it was before the append.
pub proof fn law_removal_undoes_append(links: Seq<PaneLinkView>, link: PaneLinkView)
    requires
        label_position(links, link.label) is None,
        links.len() < MAX_PANE_LINKS,
        trimmed(link.label) == link.label,
    ensures
        upsert(links, link) == (links.push(link), Ok::<bool, PaneLinkErrorView>(true)),
        removal(links.push(link), link.label) == (links, Ok::<
            (),
            PaneLinkErrorView,
        >(())),
{
    assert(links.push(link).drop_last() =~= links);
    assert(links.push(link).remove(links.len() as int) =~= links);
}

/// Trimming removes exactly a white-space prefix and a white-space suffix:
/// the trimmed text is a contiguous part `s[p..q]` of `s`, every character
/// before `p` and from `q` on is white space, and where the part is not empty
/// it starts and ends with a character that is not.
pub proof fn law_trim_removes_outer_white_space_only(s: Seq<char>)
    ensures
        exists|p: int, q: int|
            {
                &&& 0 <= p <= q <= s.len()
                &&& trimmed(s) == s.subrange(p, q)
                &&& forall|j: int| 0 <= j < p ==> is_white_space_spec(#[trigger] s[j])
                &&& forall|j: int| q <= j < s.len() ==> is_white_space_spec(#[trigger] s[j])
                &&& p < q ==> !is_white_space_spec(s[p]) && !is_white_space_spec(s[q - 1])
            },
{
    let u = trim_start(s);
    lemma_trim_start_shape(s);
    lemma_trim_end_shape(u);
    let p = s.len() - u.len();
    let q = p + trim_end(u).len();
    assert(trim_end(u) =~= s.subrange(p, q));
    assert forall|j: int| q <= j < s.len() implies is_white_space_spec(#[trigger] s[j]) by {
        assert(s[j] == u[j - p]);
    }
    if p < q {
        assert(s[p] == u[0]);
        assert(trim_end(u)[0] == u[0]);
        assert(s[q - 1] == trim_end(u).last());
    }
}

/// A text holds a control code exactly when one of its characters is in the
/// Unicode category `Cc`, U+0000..=U+001F or U+007F..=U+009F.
pub proof fn law_control_codes_are_exactly_cc(s: Seq<char>)
    ensures
        has_control(s) <==> exists|i: int|
            0 <= i < s.len() && ((#[trigger] s[i] as u32) <= 0x1f || (0x7f <= (s[i] as u32)
                && (s[i] as u32) <= 0x9f)),
{
}

/// Validation refuses nothing well-formed: where the trimmed label has 1 to
/// 64 characters and no control code (category `Cc`), the trimmed URL has at
/// most 2048 characters and no control code, and the URL parser finds in it
/// the scheme `http` or `https` and a normalized form of at most 2048
/// characters, validation accepts the trimmed label and URL.
pub proof fn law_validation_accepts_well_formed_links(
    label: Seq<char>,
    url: Seq<char>,
    scheme: Seq<char>,
    normalized: Seq<char>,
)
    requires
        1 <= trimmed(label).len() <= 64,
        forall|i: int|
            0 <= i < trimmed(label).len() ==> !((#[trigger] trimmed(label)[i] as u32) <= 0x1f || (
            0x7f <= (trimmed(label)[i] as u32) && (trimmed(label)[i] as u32) <= 0x9f)),
        trimmed(url).len() <= 2048,
        forall|i: int|
            0 <= i < trimmed(url).len() ==> !((#[trigger] trimmed(url)[i] as u32) <= 0x1f || (0x7f
                <= (trimmed(url)[i] as u32) && (trimmed(url)[i] as u32) <= 0x9f)),
        parsed_url_scheme(trimmed(url)) == Some(scheme),
        scheme == seq!['h', 't', 't', 'p'] || scheme == seq!['h', 't', 't', 'p', 's'],
        parsed_url_serialization(trimmed(url)) == Some(normalized),
        normalized.len() <= 2048,
    ensures
        validation(label, url) == Ok::<PaneLinkView, PaneLinkErrorView>(
            PaneLinkView { label: trimmed(label), url: trimmed(url) },
        ),
{
    law_control_codes_are_exactly_cc(trimmed(label));
    law_control_codes_are_exactly_cc(trimmed(url));
}

/// Once the URL parser has accepted a URL, only two things refuse it: a
/// normalized form over 2048 characters, and a scheme other than `http` and
/// `https`. A parsed URL with a web scheme and a short enough normalized form
/// gives the link of the label and URL as given.
pub proof fn law_parsed_url_refused_only_for_length_or_scheme(
    label: Seq<char>,
    url: Seq<char>,
    scheme: Seq<char>,
    normalized: Seq<char>,
)
    ensures
        normalized.len() <= 2048 && (scheme == seq!['h', 't', 't', 'p'] || scheme == seq![
            'h',
            't',
            't',
            'p',
            's',
        ]) ==> link_for_parsed_url(label, url, Some((scheme, normalized))) == Ok::<
            PaneLinkView,
            PaneLinkErrorView,
        >(PaneLinkView { label, url }),
        normalized.len() > 2048 ==> link_for_parsed_url(label, url, Some((scheme, normalized)))
            == Err::<PaneLinkView, PaneLinkErrorView>(
            PaneLinkErrorView::UrlTooLong { max: 2048 },
        ),
        normalized.len() <= 2048 && scheme != seq!['h', 't', 't', 'p'] && scheme != seq![
            'h',
            't',
            't',
            'p',
            's',
        ] ==> link_for_parsed_url(label, url, Some((scheme, normalized))) == Err::<
            PaneLinkView,
            PaneLinkErrorView,
        >(PaneLinkErrorView::UrlSchemeNotAllowed { scheme }),
        link_for_parsed_url(label, url, None) == Err::<PaneLinkView, PaneLinkErrorView>(
            PaneLinkErrorView::UrlNotParseable,
        ),
{
}

/// Every refusal of validation has its reason in the input: an empty trimmed
/// label, a trimmed label over 64 characters, a control code (category `Cc`)
/// in the trimmed label or URL, a trimmed URL or normalized form over 2048
/// characters, a URL the parser refuses, or a parsed scheme other than
/// `http` and `https`. Validation never reports a list error.
pub proof fn law_validation_refusals_have_their_reason(label: Seq<char>, url: Seq<char>)
    ensures
        ({
            let l = trimmed(label);
            let u = trimmed(url);
            match validation(label, url) {
                Ok(link) => link == PaneLinkView { label: l, url: u },
                Err(PaneLinkErrorView::EmptyLabel) => l.len() == 0,
                Err(PaneLinkErrorView::LabelTooLong { max }) => max == 64 && l.len() > 64,
                Err(PaneLinkErrorView::LabelHasControlCharacters) => exists|i: int|
                    0 <= i < l.len() && ((#[trigger] l[i] as u32) <= 0x1f || (0x7f <= (l[i] as u32)
                        && (l[i] as u32) <= 0x9f)),
                Err(PaneLinkErrorView::UrlTooLong { max }) => max == 2048 && (u.len() > 2048 || (
                parsed_url_serialization(u) matches Some(n) && n.len() > 2048)),
                Err(PaneLinkErrorView::UrlHasControlCharacters) => exists|i: int|
                    0 <= i < u.len() && ((#[trigger] u[i] as u32) <= 0x1f || (0x7f <= (u[i] as u32)
                        && (u[i] as u32) <= 0x9f)),
                Err(PaneLinkErrorView::UrlNotParseable) => parsed_url_scheme(u) is None
                    || parsed_url_serialization(u) is None,
                Err(PaneLinkErrorView::UrlSchemeNotAllowed { scheme }) => parsed_url_scheme(u)
                    == Some(scheme) && scheme != seq!['h', 't', 't', 'p'] && scheme != seq![
                    'h',
                    't',
                    't',
                    'p',
                    's',
                ],
                Err(PaneLinkErrorView::TooManyLinks { .. }) => false,
                Err(PaneLinkErrorView::NoSuchLabel { .. }) => false,
            }
        }),
{
    law_control_codes_are_exactly_cc(trimmed(label));
    law_control_codes_are_exactly_cc(trimmed(url));
}

/// A removal succeeds exactly when some link carries the trimmed label; it
/// then drops the first such link and keeps the others in order. Otherwise it
/// answers `NoSuchLabel` with the trimmed label and keeps the list.
pub proof fn law_removal_succeeds_only_on_a_present_label(
    links: Seq<PaneLinkView>,
    label: Seq<char>,
)
    ensures
        removal(links, label).1 is Ok <==> exists|i: int|
            0 <= i < links.len() && (#[trigger] links[i]).label == trimmed(label),
        removal(links, label).1 is Ok ==> exists|i: int|
            {
                &&& 0 <= i < links.len()
                &&& links[i].label == trimmed(label)
                &&& forall|j: int| 0 <= j < i ==> (#[trigger] links[j]).label != trimmed(label)
                &&& removal(links, label).0.len() == links.len() - 1
                &&& forall|j: int| 0 <= j < i ==> removal(links, label).0[j] == links[j]
                &&& forall|j: int|
                    i <= j < links.len() - 1 ==> removal(links, label).0[j] == links[j + 1]
            },
        removal(links, label).1 is Err ==> removal(links, label) == (
            links,
            Err::<(), PaneLinkErrorView>(PaneLinkErrorView::NoSuchLabel { label: trimmed(label) }),
        ),
{
    lemma_label_position(links, trimmed(label));
    if let Some(i) = label_position(links, trimmed(label)) {
        assert(links[i].label == trimmed(label));
    }
}

/// An upsert is refused only when the label is new and the list already
/// holds `MAX_PANE_LINKS` links, and then answers `TooManyLinks`. It reports
/// no change exactly when a link with that label already has that URL; on a
/// change, the new link stands in the list, replacing the first link with its
/// label or appended at the end.
pub proof fn law_upsert_outcomes(links: Seq<PaneLinkView>, link: PaneLinkView)
    ensures
        upsert(links, link).1 is Err ==> {
            &&& upsert(links, link).1 == Err::<bool, PaneLinkErrorView>(
                PaneLinkErrorView::TooManyLinks { max: 3 },
            )
            &&& links.len() >= 3
            &&& forall|i: int| 0 <= i < links.len() ==> (#[trigger] links[i]).label != link.label
        },
        upsert(links, link).1 == Ok::<bool, PaneLinkErrorView>(false) <==> exists|i: int|
            0 <= i < links.len() && (#[trigger] links[i]).label == link.label && (forall|j: int|
                0 <= j < i ==> (#[trigger] links[j]).label != link.label) && links[i].url
                == link.url,
        upsert(links, link).1 == Ok::<bool, PaneLinkErrorView>(false) ==> upsert(links, link).0
            == links,
        upsert(links, link).1 == Ok::<bool, PaneLinkErrorView>(true) ==> {
            ||| (forall|i: int| 0 <= i < links.len() ==> (#[trigger] links[i]).label != link.label)
                && links.len() < 3 && upsert(links, link).0 == links.push(link)
            ||| exists|i: int|
                0 <= i < links.len() && (#[trigger] links[i]).label == link.label && links[i].url
                    != link.url && upsert(links, link).0 == links.update(i, link)
        },
{
    lemma_label_position(links, link.label);
    if let Some(i) = label_position(links, link.label) {
        assert(links[i].label == link.label);
        assert forall|k: int|
            0 <= k < links.len() && (#[trigger] links[k]).label == link.label && (forall|j: int|
                0 <= j < k ==> (#[trigger] links[j]).label != link.label) implies k == i by {
            if k < i {
                assert(links[k].label != link.label);
            }
            if k > i {
                assert(links[i].label != link.label);
            }
        }
    }
}

} // verus!

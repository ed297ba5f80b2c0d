//! The ordered, label-keyed list of links that a pane holds.

use vstd::prelude::*;

use crate::link::{PaneLink, PaneLinkError, PaneLinkErrorView, PaneLinkView, MAX_PANE_LINKS};
use crate::text::{trim, trimmed};

verus! {

/// The links of a list, each taken by its view.
pub open spec fn links_view(links: Seq<PaneLink>) -> Seq<PaneLinkView> {
    links.map_values(|link: PaneLink| link@)
}

/// The index of the first link of `links` whose label is `label`, if any.
pub open spec fn label_position(links: Seq<PaneLinkView>, label: Seq<char>) -> Option<int>
    decreases links.len(),
{
    if links.len() == 0 {
        None
    } else {
        match label_position(links.drop_last(), label) {
            Some(i) => Some(i),
            None => if links.last().label == label {
                Some(links.len() - 1)
            } else {
                None
            },
        }
    }
}

/// A result of a list operation taken by its view.
pub open spec fn result_view<T>(r: Result<T, PaneLinkError>) -> Result<T, PaneLinkErrorView> {
    match r {
        Ok(v) => Ok(v),
        Err(e) => Err(e@),
    }
}

/// The list and the answer that inserting or updating `link` gives: a link
/// with the same label has its URL replaced in place (`Ok(false)` where the
/// URL is already that one); otherwise `link` is appended, unless the list
/// already holds `MAX_PANE_LINKS` links.
pub open spec fn upsert(links: Seq<PaneLinkView>, link: PaneLinkView) -> (
    Seq<PaneLinkView>,
    Result<bool, PaneLinkErrorView>,
) {
    match label_position(links, link.label) {
        Some(i) => if links[i].url == link.url {
            (links, Ok(false))
        } else {
            (links.update(i, link), Ok(true))
        },
        None => if links.len() >= MAX_PANE_LINKS {
            (links, Err(PaneLinkErrorView::TooManyLinks { max: MAX_PANE_LINKS }))
        } else {
            (links.push(link), Ok(true))
        },
    }
}

/// The list and the answer that removing the link labelled `label` (after
/// trimming) gives.
pub open spec fn removal(links: Seq<PaneLinkView>, label: Seq<char>) -> (
    Seq<PaneLinkView>,
    Result<(), PaneLinkErrorView>,
) {
    let label = trimmed(label);
    match label_position(links, label) {
        Some(i) => (links.remove(i), Ok(())),
        None => (links, Err(PaneLinkErrorView::NoSuchLabel { label })),
    }
}

/// `label_position` finds the first link with the label, and finds none
/// exactly when no link has it.
pub proof fn lemma_label_position(links: Seq<PaneLinkView>, label: Seq<char>)
    ensures
        match label_position(links, label) {
            Some(i) => {
                &&& 0 <= i < links.len()
                &&& links[i].label == label
                &&& forall|j: int| 0 <= j < i ==> links[j].label != label
            },
            None => forall|j: int| 0 <= j < links.len() ==> links[j].label != label,
        },
    decreases links.len(),
{
    if links.len() > 0 {
        let init = links.drop_last();
        lemma_label_position(init, label);
        assert(forall|j: int| 0 <= j < init.len() ==> init[j] == links[j]);
    }
}

/// The index of the first link whose label is `label`.
fn position_of_label(links: &Vec<PaneLink>, label: &String) -> (res: Option<usize>)
    ensures
        match res {
            Some(i) => i < links@.len() && label_position(links_view(links@), label@) == Some(
                i as int,
            ),
            None => label_position(links_view(links@), label@) is None,
        },
{
    let n = links.len();
    let ghost all = links_view(links@);
    let mut i: usize = 0;
    while i < n
        invariant
            n == links@.len(),
            i <= n,
            all == links_view(links@),
            forall|j: int| 0 <= j < i ==> all[j].label != label@,
        decreases n - i,
    {
        if links[i].label.eq(label) {
            proof {
                lemma_label_position(all, label@);
                let p = label_position(all, label@);
                if p is None {
                    assert(all[i as int].label == label@);
                } else {
                    assert(p->0 >= i);
                    if p->0 > i {
                        assert(all[i as int].label == label@);
                    }
                }
            }
            return Some(i);
        }
        i = i + 1;
    }
    proof {
        lemma_label_position(all, label@);
        if let Some(p) = label_position(all, label@) {
            assert(all[p].label == label@);
        }
    }
    None
}

/// Appends `link`, or replaces the URL of the existing link with the same
/// label in place. Returns `Ok(true)` when the list changed, `Ok(false)` when
/// that link already had that URL, and `TooManyLinks` (with the list
/// unchanged) when the label is new and the list is full.
pub fn upsert_link(links: &mut Vec<PaneLink>, link: PaneLink) -> (res: Result<bool, PaneLinkError>)
    ensures
        (links_view(final(links)@), result_view(res)) == upsert(links_view(old(links)@), link@),
{
    let ghost before = links_view(links@);
    match position_of_label(links, &link.label) {
        Some(i) => {
            if links[i].url.eq(&link.url) {
                return Ok(false);
            }
            proof {
                lemma_label_position(before, link.label@);
            }
            links[i].url = link.url;
            proof {
                assert(links_view(links@) =~= before.update(i as int, link@));
            }
            Ok(true)
        },
        None => {
            if links.len() >= MAX_PANE_LINKS {
                return Err(PaneLinkError::TooManyLinks { max: MAX_PANE_LINKS });
            }
            links.push(link);
            proof {
                assert(links_view(links@) =~= before.push(link@));
            }
            Ok(true)
        },
    }
}

/// Removes the link whose label equals `label` (after trimming), keeping the
/// order of the remaining links; `NoSuchLabel` (with the list unchanged) when
/// no link has that label.
pub fn remove_link(links: &mut Vec<PaneLink>, label: &str) -> (res: Result<(), PaneLinkError>)
    ensures
        (links_view(final(links)@), result_view(res)) == removal(links_view(old(links)@), label@),
{
    let ghost before = links_view(links@);
    let label = trim(label).to_owned();
    match position_of_label(links, &label) {
        Some(i) => {
            links.remove(i);
            proof {
                assert(links_view(links@) =~= before.remove(i as int));
            }
            Ok(())
        },
        None => Err(PaneLinkError::NoSuchLabel { label }),
    }
}

} // verus!

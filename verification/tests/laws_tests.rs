use pane_links::{remove_link, upsert_link, PaneLink, PaneLinkError};

fn link(label: &str, url: &str) -> PaneLink {
    PaneLink::validate(label, url).expect("valid link")
}

fn labels(links: &[PaneLink]) -> Vec<&str> {
    links.iter().map(|l| l.label.as_str()).collect()
}

#[test]
fn second_identical_upsert_changes_nothing() {
    let mut links = vec![link("a", "https://a")];
    assert_eq!(upsert_link(&mut links, link("b", "https://b")), Ok(true));
    let after = links.clone();
    assert_eq!(upsert_link(&mut links, link("b", "https://b")), Ok(false));
    assert_eq!(links, after);
}

#[test]
fn removing_an_appended_label_restores_the_list() {
    let mut links = vec![link("a", "https://a"), link("b", "https://b")];
    let before = links.clone();
    assert_eq!(upsert_link(&mut links, link("c", "https://c")), Ok(true));
    assert_eq!(remove_link(&mut links, "c"), Ok(()));
    assert_eq!(links, before);
}

#[test]
fn refused_requests_leave_the_list_alone() {
    let mut links = vec![
        link("a", "https://a"),
        link("b", "https://b"),
        link("c", "https://c"),
    ];
    let before = links.clone();
    assert!(upsert_link(&mut links, link("d", "https://d")).is_err());
    assert_eq!(links, before);
    assert_eq!(
        remove_link(&mut links, " d "),
        Err(PaneLinkError::NoSuchLabel {
            label: "d".to_owned()
        })
    );
    assert_eq!(links, before);
}

#[test]
fn operations_keep_labels_unique_and_within_the_cap() {
    let mut links = Vec::new();
    for (label, url) in [
        ("a", "https://a"),
        ("b", "https://b"),
        ("a", "https://a3"),
        ("c", "https://c"),
        ("d", "https://d"),
        ("b", "https://b2"),
    ] {
        let _ = upsert_link(&mut links, link(label, url));
        assert!(links.len() <= 3);
        let mut seen = labels(&links);
        seen.sort();
        seen.dedup();
        assert_eq!(seen.len(), links.len());
    }
    assert_eq!(labels(&links), ["a", "b", "c"]);
    assert_eq!(links[0].url, "https://a3");
    assert_eq!(links[1].url, "https://b2");
}

#[test]
fn revalidating_a_link_gives_it_back() {
    let first = link("  DELI-1878 ", " https://linear.app/x ");
    let again = PaneLink::validate(&first.label, &first.url).expect("still valid");
    assert_eq!(again, first);
}

#[test]
fn upsert_with_an_existing_label_keeps_the_first_match() {
    let mut links = vec![
        PaneLink {
            label: "x".to_owned(),
            url: "https://1".to_owned(),
        },
        PaneLink {
            label: "x".to_owned(),
            url: "https://2".to_owned(),
        },
    ];
    assert_eq!(upsert_link(&mut links, link("x", "https://3")), Ok(true));
    assert_eq!(links[0].url, "https://3");
    assert_eq!(links[1].url, "https://2");
    assert_eq!(remove_link(&mut links, "x"), Ok(()));
    assert_eq!(links[0].url, "https://2");
}

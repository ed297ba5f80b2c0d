# pane_links

Named `{label, url}` links attached to a terminal pane, verified with Verus.

- `src/text.rs`: Unicode white space and control codes, trimming, decimal
  notation.
- `src/link.rs`: `PaneLink`, `PaneLinkError`, validation of a label and a URL,
  and the error messages.
- `src/url_scheme.rs`: the call into the `url` crate, behind a trusted wrapper.
- `src/links.rs`: the ordered list of a pane's links (`upsert_link`,
  `remove_link`).
- `src/laws.rs`: properties across calls (cap, unique labels, refusals change
  nothing, repeated upsert, removal undoing an append, trimming, revalidation).
- `app/lib.rs`: the serde form of a link and the `Display` form of the errors.

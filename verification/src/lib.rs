//! Named `{label, url}` links attached to a pane: validation of a single
//! link, and the bounded, label-keyed list that holds a pane's links.

pub mod laws;
pub mod link;
pub mod links;
pub mod text;
pub mod url_scheme;

pub use url_scheme::ParsedUrl;
pub use link::{
    PaneLink, PaneLinkError, MAX_PANE_LINKS, MAX_PANE_LINK_LABEL_CHARS, MAX_PANE_LINK_URL_CHARS,
};
pub use links::{remove_link, upsert_link};

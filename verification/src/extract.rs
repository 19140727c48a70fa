//! The metadata-extraction pipeline: given a URL and the HTML page
//! fetched from it, derive a record's title and description through the
//! fixed fallback chains, and store the URL in canonical form.

use vstd::prelude::*;
use crate::link::{Link, LinkView, LinkError};
use crate::text::{replace_tabs, normalize_tabs, lemma_replace_tabs_no_tab};
use crate::web::{
    url_host_ok, url_canon, url_canonicalize, html_has_title, html_title, scrape_title,
    meta_description, meta_og_description, meta_twitter_description, scrape_meta_description,
    scrape_meta_og_description, scrape_meta_twitter_description,
};

verus! {

/// Whether a candidate description is present with non-empty content.
pub open spec fn present_nonempty(o: Option<Seq<char>>) -> bool {
    o matches Some(c) && c.len() > 0
}

/// The description the fallback chain picks: the first of the plain
/// `description`, `og:description` and `twitter:description` meta tags —
/// in that fixed priority order — whose content attribute is present and
/// non-empty; absent when none qualifies.
pub open spec fn description_of(body: Seq<char>) -> Option<Seq<char>> {
    if present_nonempty(meta_description(body)) {
        meta_description(body)
    } else if present_nonempty(meta_og_description(body)) {
        meta_og_description(body)
    } else if present_nonempty(meta_twitter_description(body)) {
        meta_twitter_description(body)
    } else {
        None
    }
}

/// The title a page yields: the first `title` element's text with tabs
/// normalized to spaces; with no `title` element, the canonicalized URL
/// string itself.
pub open spec fn title_of(url: Seq<char>, body: Seq<char>) -> Seq<char> {
    if html_has_title(body) {
        replace_tabs(html_title(body))
    } else {
        url_canon(url)
    }
}

/// Whether a string is accepted as a record URL: exactly when it parses
/// as an absolute URL with a host.
pub fn url_is_valid(s: &str) -> (r: bool)
    ensures
        r == url_host_ok(s@),
{
    url_canonicalize(s).is_some()
}

/// Picks the description by the fixed priority order, skipping absent and
/// empty candidates.
fn pick_description(body: &str) -> (r: Option<String>)
    ensures
        r.deep_view() == description_of(body@),
{
    match scrape_meta_description(body) {
        Some(c) => {
            if !c.as_str().is_empty() {
                return Some(c);
            }
        },
        None => {},
    }
    match scrape_meta_og_description(body) {
        Some(c) => {
            if !c.as_str().is_empty() {
                return Some(c);
            }
        },
        None => {},
    }
    match scrape_meta_twitter_description(body) {
        Some(c) => {
            if !c.as_str().is_empty() {
                return Some(c);
            }
        },
        None => {},
    }
    None
}

impl Link {
    /// Builds a record from a URL and the HTML document fetched from it.
    /// Fails exactly when the URL does not parse as an absolute URL with
    /// a host. On success the record is fresh (id 0, no tags), its URL is
    /// the canonical form of the input, and title and description follow
    /// the fallback chains.
    pub fn from_page(url: &str, body: &str) -> (r: Result<Link, LinkError>)
        ensures
            r is Ok <==> url_host_ok(url@),
            r matches Ok(l) ==> l@ == (LinkView {
                id: 0,
                title: title_of(url@, body@),
                tags: Seq::empty(),
                description: description_of(body@),
                url: url_canon(url@),
            }) && l.wf(),
            r matches Ok(l) ==> (!html_has_title(body@) ==> l@.title.len() > 0),
            r matches Err(e) ==> e == LinkError::InvalidUrl,
    {
        let canon = match url_canonicalize(url) {
            Some(c) => c,
            None => {
                return Err(LinkError::InvalidUrl);
            },
        };
        let title = match scrape_title(body) {
            Some(t) => normalize_tabs(t.as_str()),
            None => canon.clone(),
        };
        let description = pick_description(body);
        let l = Link { id: 0, title, tags: Vec::new(), description, url: canon };
        proof {
            lemma_replace_tabs_no_tab(html_title(body@));
            assert(l@ =~= (LinkView {
                id: 0,
                title: title_of(url@, body@),
                tags: Seq::empty(),
                description: description_of(body@),
                url: url_canon(url@),
            }));
        }
        Ok(l)
    }
}

/// Title fallback: with no `title` element in the page, the title is the
/// canonicalized URL string, exactly.
pub proof fn lemma_title_fallback(url: Seq<char>, body: Seq<char>)
    requires
        !html_has_title(body),
    ensures
        title_of(url, body) == url_canon(url),
{
}

/// Fallback priority: whenever the plain `description` meta tag is absent
/// or its content is empty, and the `og:description` content is present
/// and non-empty, the chain picks the `og:description` content — in
/// particular when only `og:description` and `twitter:description` exist.
pub proof fn lemma_description_priority(body: Seq<char>)
    requires
        !present_nonempty(meta_description(body)),
        present_nonempty(meta_og_description(body)),
    ensures
        description_of(body) == meta_og_description(body),
{
}

} // verus!

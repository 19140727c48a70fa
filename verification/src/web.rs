//! Trusted boundary to the `url` and `scraper` crates.
//!
//! URL parsing and HTML parsing are done by those crates; each call is
//! wrapped in a function whose contract names its result. Every result
//! here is a function of the argument strings alone, so each gets an
//! uninterpreted name that the callers' contracts are stated over.

use vstd::prelude::*;

verus! {

/// Whether the string parses as an absolute URL with a host component.
pub uninterp spec fn url_host_ok(s: Seq<char>) -> bool;

/// The canonical (parsed-and-reserialized) form of a URL string.
pub uninterp spec fn url_canon(s: Seq<char>) -> Seq<char>;

/// The host component of a URL string.
pub uninterp spec fn url_host(s: Seq<char>) -> Seq<char>;

/// The concatenated text of the first `title` element of an HTML
/// document, text nodes joined by single spaces; meaningful only when
/// `html_has_title` holds.
pub uninterp spec fn html_title(body: Seq<char>) -> Seq<char>;

/// Whether an HTML document has a `title` element.
pub uninterp spec fn html_has_title(body: Seq<char>) -> bool;

/// The `content` attribute of the first `meta[name="description"]`
/// element of an HTML document, if that element and attribute exist.
pub uninterp spec fn meta_description(body: Seq<char>) -> Option<Seq<char>>;

/// The `content` attribute of the first `meta[property="og:description"]`
/// element of an HTML document, if that element and attribute exist.
pub uninterp spec fn meta_og_description(body: Seq<char>) -> Option<Seq<char>>;

/// The `content` attribute of the first `meta[name="twitter:description"]`
/// element of an HTML document, if that element and attribute exist.
pub uninterp spec fn meta_twitter_description(body: Seq<char>) -> Option<Seq<char>>;

/// Relies on `url::Url::parse`, `Url::has_host` and `Url::as_str`: whether
/// a string parses as an absolute URL with a host is a function of the
/// string alone, and `as_str` returns the parsed-and-reserialized
/// (canonical) serialization, which is never empty and never holds a raw
/// tab (the parser strips ASCII tabs and newlines, per the URL standard).
#[verifier::external_body]
pub(crate) fn url_canonicalize(s: &str) -> (r: Option<String>)
    ensures
        r is Some <==> url_host_ok(s@),
        r matches Some(c) ==> c@ == url_canon(s@) && c@.len() > 0 && !c@.contains('\t'),
{
    match url::Url::parse(s) {
        Ok(u) if u.has_host() => Some(u.as_str().to_string()),
        _ => None,
    }
}

/// Relies on `url::Url::parse`, `Url::has_host` and `Url::host_str`: the
/// host component of the parsed URL, present exactly when the URL has a
/// host; a host never holds a tab.
#[verifier::external_body]
pub(crate) fn url_host_of(s: &str) -> (r: Option<String>)
    ensures
        r is Some <==> url_host_ok(s@),
        r matches Some(h) ==> h@ == url_host(s@) && !h@.contains('\t'),
{
    match url::Url::parse(s) {
        Ok(u) if u.has_host() => u.host_str().map(|h| h.to_string()),
        _ => None,
    }
}

/// Relies on `scraper::Html::parse_document` (a permissive, non-aborting
/// HTML parser) and `ElementRef::text`: returns the text of the first
/// `title` element, text nodes joined by single spaces, a function of the
/// document text alone.
#[verifier::external_body]
pub(crate) fn scrape_title(body: &str) -> (r: Option<String>)
    ensures
        r is Some <==> html_has_title(body@),
        r matches Some(t) ==> t@ == html_title(body@),
{
    let doc = scraper::Html::parse_document(body);
    let sel = scraper::Selector::parse("title").unwrap();
    doc.select(&sel).next().map(|el| el.text().collect::<Vec<_>>().join(" "))
}

/// Relies on `scraper`: the `content` attribute of the first
/// `meta[name="description"]` element, a function of the document alone.
#[verifier::external_body]
pub(crate) fn scrape_meta_description(body: &str) -> (r: Option<String>)
    ensures
        r.deep_view() == meta_description(body@),
{
    let doc = scraper::Html::parse_document(body);
    let sel = scraper::Selector::parse(r#"meta[name="description"]"#).unwrap();
    doc.select(&sel).next().and_then(|el| el.attr("content")).map(|s| s.to_string())
}

/// Relies on `scraper`: the `content` attribute of the first
/// `meta[property="og:description"]` element, a function of the document
/// alone.
#[verifier::external_body]
pub(crate) fn scrape_meta_og_description(body: &str) -> (r: Option<String>)
    ensures
        r.deep_view() == meta_og_description(body@),
{
    let doc = scraper::Html::parse_document(body);
    let sel = scraper::Selector::parse(r#"meta[property="og:description"]"#).unwrap();
    doc.select(&sel).next().and_then(|el| el.attr("content")).map(|s| s.to_string())
}

/// Relies on `scraper`: the `content` attribute of the first
/// `meta[name="twitter:description"]` element, a function of the document
/// alone.
#[verifier::external_body]
pub(crate) fn scrape_meta_twitter_description(body: &str) -> (r: Option<String>)
    ensures
        r.deep_view() == meta_twitter_description(body@),
{
    let doc = scraper::Html::parse_document(body);
    let sel = scraper::Selector::parse(r#"meta[name="twitter:description"]"#).unwrap();
    doc.select(&sel).next().and_then(|el| el.attr("content")).map(|s| s.to_string())
}

} // verus!

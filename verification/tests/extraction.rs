use li::link::{Link, LinkError};

#[test]
fn title_from_title_element() {
    let body = "<html><head><title>Hello</title></head><body></body></html>";
    let l = Link::from_page("https://example.com/page", body).unwrap();
    assert_eq!(l.title, "Hello");
    assert_eq!(l.id, 0);
    assert!(l.tags.is_empty());
}

#[test]
fn title_tabs_normalized() {
    let body = "<html><head><title>Hello\tWorld</title></head></html>";
    let l = Link::from_page("https://example.com", body).unwrap();
    assert_eq!(l.title, "Hello World");
}

#[test]
fn title_falls_back_to_canonical_url() {
    let body = "<html><head></head><body>no title here</body></html>";
    let l = Link::from_page("https://example.com/page", body).unwrap();
    assert_eq!(l.title, "https://example.com/page");
    assert_eq!(l.title, l.url);
}

#[test]
fn url_stored_in_canonical_form() {
    let body = "<html><head></head></html>";
    let l = Link::from_page("HTTPS://Example.COM/Path", body).unwrap();
    assert_eq!(l.url, "https://example.com/Path");
}

#[test]
fn extraction_rejects_hostless_url() {
    let body = "<html></html>";
    let r = Link::from_page("data:text/plain,hello", body);
    assert!(matches!(r, Err(LinkError::InvalidUrl)));
}

#[test]
fn description_from_plain_meta() {
    let body = "<html><head><meta name=\"description\" content=\"plain\"><meta property=\"og:description\" content=\"og\"></head></html>";
    let l = Link::from_page("https://example.com", body).unwrap();
    assert_eq!(l.description, Some("plain".to_string()));
}

#[test]
fn description_priority_og_over_twitter() {
    let body = "<html><head><meta name=\"twitter:description\" content=\"tw\"><meta property=\"og:description\" content=\"og\"></head></html>";
    let l = Link::from_page("https://example.com", body).unwrap();
    assert_eq!(l.description, Some("og".to_string()));
}

#[test]
fn description_empty_earlier_candidate_skipped() {
    let body = "<html><head><meta name=\"description\" content=\"\"><meta property=\"og:description\" content=\"og\"></head></html>";
    let l = Link::from_page("https://example.com", body).unwrap();
    assert_eq!(l.description, Some("og".to_string()));
}

#[test]
fn description_absent_when_no_candidate() {
    let body = "<html><head><title>t</title></head></html>";
    let l = Link::from_page("https://example.com", body).unwrap();
    assert!(l.description.is_none());
}

#[test]
fn description_twitter_as_last_resort() {
    let body = "<html><head><meta name=\"description\" content=\"\"><meta name=\"twitter:description\" content=\"tw\"></head></html>";
    let l = Link::from_page("https://example.com", body).unwrap();
    assert_eq!(l.description, Some("tw".to_string()));
}

#[test]
fn malformed_html_does_not_abort() {
    let body = "<html><head><title>ok</title><p <<< broken";
    let l = Link::from_page("https://example.com", body).unwrap();
    assert_eq!(l.title, "ok");
}

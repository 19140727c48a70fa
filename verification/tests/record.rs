use li::link::{delete_outcome, apply_edit, EditRequest, Link, LinkError};

#[test]
fn new_stub_record_fields() {
    let l = Link::new("https://example.com/page", "Example").unwrap();
    assert_eq!(l.id, 0);
    assert_eq!(l.title, "Example");
    assert_eq!(l.url, "example.com");
    assert!(l.tags.is_empty());
    assert!(l.description.is_none());
}

#[test]
fn new_normalizes_tabs_in_title() {
    let l = Link::new("https://example.com", "a\tb\tc").unwrap();
    assert_eq!(l.title, "a b c");
}

#[test]
fn new_rejects_malformed_url() {
    let r = Link::new("notaurl", "t");
    assert!(matches!(r, Err(LinkError::InvalidUrl)));
}

#[test]
fn new_rejects_hostless_url() {
    let r = Link::new("mailto:user@example.com", "t");
    assert!(matches!(r, Err(LinkError::InvalidUrl)));
}

#[test]
fn new_accepts_every_url_with_host() {
    for u in [
        "https://example.com",
        "http://example.com:8080/a/b?q=1#f",
        "ftp://files.example.org/x",
        "https://sub.domain.example/path",
    ] {
        assert!(Link::new(u, "t").is_ok(), "rejected {u}");
    }
}

#[test]
fn url_validation_predicate() {
    assert!(li::extract::url_is_valid("https://example.com/page"));
    assert!(li::extract::url_is_valid("http://a.b/c?d=e#f"));
    assert!(!li::extract::url_is_valid("notaurl"));
    assert!(!li::extract::url_is_valid("mailto:user@example.com"));
    assert!(!li::extract::url_is_valid("data:text/plain,hello"));
}

#[test]
fn edit_append_collapses_duplicate_tags() {
    let l = Link {
        id: 3,
        title: "t".to_string(),
        tags: vec!["x".to_string()],
        description: None,
        url: "example.com".to_string(),
    };
    let e = EditRequest {
        append: true,
        url: None,
        title: None,
        description: None,
        tags: Some(vec!["y".to_string(), "x".to_string()]),
    };
    let l2 = apply_edit(l, &e).unwrap();
    assert_eq!(l2.tags, vec!["x".to_string(), "y".to_string()]);
    assert_eq!(l2.id, 3);
    assert_eq!(l2.title, "t");
}

#[test]
fn edit_replace_overwrites_tags() {
    let l = Link {
        id: 1,
        title: "t".to_string(),
        tags: vec!["x".to_string()],
        description: None,
        url: "example.com".to_string(),
    };
    let e = EditRequest {
        append: false,
        url: None,
        title: None,
        description: None,
        tags: Some(vec!["y".to_string(), "z".to_string()]),
    };
    let l2 = apply_edit(l, &e).unwrap();
    assert_eq!(l2.tags, vec!["y".to_string(), "z".to_string()]);
}

#[test]
fn edit_canonicalizes_new_url() {
    let l = Link {
        id: 1,
        title: "t".to_string(),
        tags: vec![],
        description: None,
        url: "example.com".to_string(),
    };
    let e = EditRequest {
        append: false,
        url: Some("HTTPS://Example.COM/a".to_string()),
        title: None,
        description: None,
        tags: None,
    };
    let l2 = apply_edit(l, &e).unwrap();
    assert_eq!(l2.url, "https://example.com/a");
}

#[test]
fn edit_rejects_invalid_new_url() {
    let l = Link {
        id: 1,
        title: "t".to_string(),
        tags: vec![],
        description: None,
        url: "example.com".to_string(),
    };
    let e = EditRequest {
        append: false,
        url: Some("no-such-scheme".to_string()),
        title: Some("new".to_string()),
        description: None,
        tags: None,
    };
    assert!(matches!(apply_edit(l, &e), Err(LinkError::InvalidUrl)));
}

#[test]
fn edit_overwrites_title_and_description() {
    let l = Link {
        id: 1,
        title: "t".to_string(),
        tags: vec![],
        description: None,
        url: "example.com".to_string(),
    };
    let e = EditRequest {
        append: false,
        url: None,
        title: Some("new\ttitle".to_string()),
        description: Some("d".to_string()),
        tags: None,
    };
    let l2 = apply_edit(l, &e).unwrap();
    assert_eq!(l2.title, "new title");
    assert_eq!(l2.description, Some("d".to_string()));
}

#[test]
fn remove_of_missing_id_is_not_found() {
    assert!(matches!(delete_outcome(0), Err(LinkError::NotFound)));
}

#[test]
fn remove_of_existing_id_is_ok() {
    assert!(delete_outcome(1).is_ok());
    assert!(delete_outcome(5).is_ok());
}

#[test]
fn error_messages() {
    assert_eq!(LinkError::InvalidUrl.message(), "invalid url");
    assert_eq!(LinkError::NotFound.message(), "link not found");
    assert_eq!(LinkError::DuplicateUrl.message(), "link already exists");
}

use li::query::{BindValue, Field, FilterSpec, tags_contain_all};

fn spec_with(
    query: Option<&str>,
    regex: bool,
    ignore_case: bool,
    fields: Vec<Field>,
    tags: Vec<&str>,
    limit: u32,
) -> FilterSpec {
    FilterSpec {
        query: query.map(|s| s.to_string()),
        regex,
        ignore_case,
        fields,
        tags: tags.into_iter().map(|s| s.to_string()).collect(),
        limit,
    }
}

#[test]
fn empty_filter_is_limit_only() {
    let q = spec_with(None, false, false, vec![Field::Title], vec![], 30).build();
    assert_eq!(q.text, "SELECT * FROM links LIMIT $1");
    assert_eq!(q.binds, vec![BindValue::Int(30)]);
}

#[test]
fn substring_case_sensitive() {
    let q = spec_with(Some("rust"), false, false, vec![Field::Title], vec![], 30).build();
    assert_eq!(
        q.text,
        "SELECT * FROM links WHERE (title LIKE CONCAT('%', $1, '%'))  LIMIT $2"
    );
    assert_eq!(
        q.binds,
        vec![BindValue::Text("rust".to_string()), BindValue::Int(30)]
    );
}

#[test]
fn substring_case_insensitive() {
    let q = spec_with(Some("rust"), false, true, vec![Field::Title], vec![], 30).build();
    assert_eq!(
        q.text,
        "SELECT * FROM links WHERE (title ILIKE CONCAT('%', $1, '%'))  LIMIT $2"
    );
}

#[test]
fn regex_mode_binds_query_directly() {
    let q = spec_with(Some("^r.st$"), true, false, vec![Field::Title], vec![], 30).build();
    assert_eq!(q.text, "SELECT * FROM links WHERE (title ~* $1)  LIMIT $2");
    assert_eq!(
        q.binds,
        vec![BindValue::Text("^r.st$".to_string()), BindValue::Int(30)]
    );
}

#[test]
fn both_fields_join_with_or_in_canonical_order() {
    let q = spec_with(
        Some("x"),
        false,
        false,
        vec![Field::Title, Field::Desc],
        vec![],
        10,
    )
    .build();
    assert_eq!(
        q.text,
        "SELECT * FROM links WHERE (title LIKE CONCAT('%', $1, '%') OR description LIKE CONCAT('%', $2, '%'))  LIMIT $3"
    );
    assert_eq!(
        q.binds,
        vec![
            BindValue::Text("x".to_string()),
            BindValue::Text("x".to_string()),
            BindValue::Int(10),
        ]
    );
}

#[test]
fn duplicate_fields_contribute_one_clause() {
    let once = spec_with(Some("x"), false, false, vec![Field::Title], vec![], 10).build();
    let twice = spec_with(
        Some("x"),
        false,
        false,
        vec![Field::Title, Field::Title],
        vec![],
        10,
    )
    .build();
    assert_eq!(once.text, twice.text);
    assert_eq!(once.binds, twice.binds);
}

#[test]
fn field_order_invariance() {
    let a = spec_with(
        Some("x"),
        false,
        true,
        vec![Field::Desc, Field::Title],
        vec![],
        10,
    )
    .build();
    let b = spec_with(
        Some("x"),
        false,
        true,
        vec![Field::Title, Field::Desc],
        vec![],
        10,
    )
    .build();
    assert_eq!(a.text, b.text);
    assert_eq!(a.binds, b.binds);
}

#[test]
fn build_is_deterministic() {
    let make = || {
        spec_with(
            Some("q"),
            false,
            true,
            vec![Field::Title, Field::Desc],
            vec!["b", "a"],
            7,
        )
        .build()
    };
    let a = make();
    let b = make();
    assert_eq!(a.text, b.text);
    assert_eq!(a.binds, b.binds);
}

#[test]
fn tags_only_filter() {
    let q = spec_with(None, false, false, vec![Field::Title], vec!["a", "b"], 30).build();
    assert_eq!(
        q.text,
        "SELECT * FROM links WHERE tags @> ARRAY[$1, $2]::text[] LIMIT $3"
    );
    assert_eq!(
        q.binds,
        vec![
            BindValue::Text("a".to_string()),
            BindValue::Text("b".to_string()),
            BindValue::Int(30),
        ]
    );
}

#[test]
fn duplicate_tags_bound_once_in_first_occurrence_order() {
    let q = spec_with(None, false, false, vec![], vec!["b", "a", "b"], 30).build();
    assert_eq!(
        q.text,
        "SELECT * FROM links WHERE tags @> ARRAY[$1, $2]::text[] LIMIT $3"
    );
    assert_eq!(
        q.binds,
        vec![
            BindValue::Text("b".to_string()),
            BindValue::Text("a".to_string()),
            BindValue::Int(30),
        ]
    );
}

#[test]
fn query_and_tags_join_with_and_text_first() {
    let q = spec_with(Some("x"), false, true, vec![Field::Title], vec!["t"], 5).build();
    assert_eq!(
        q.text,
        "SELECT * FROM links WHERE (title ILIKE CONCAT('%', $1, '%'))  AND tags @> ARRAY[$2]::text[] LIMIT $3"
    );
    assert_eq!(
        q.binds,
        vec![
            BindValue::Text("x".to_string()),
            BindValue::Text("t".to_string()),
            BindValue::Int(5),
        ]
    );
}

#[test]
fn empty_query_string_is_valid() {
    let q = spec_with(Some(""), false, false, vec![Field::Title], vec![], 30).build();
    assert_eq!(
        q.text,
        "SELECT * FROM links WHERE (title LIKE CONCAT('%', $1, '%'))  LIMIT $2"
    );
    assert_eq!(
        q.binds,
        vec![BindValue::Text(String::new()), BindValue::Int(30)]
    );
}

#[test]
fn no_requested_fields_yields_empty_group() {
    let q = spec_with(Some("x"), false, false, vec![], vec![], 30).build();
    assert_eq!(q.text, "SELECT * FROM links WHERE ()  LIMIT $1");
    assert_eq!(q.binds, vec![BindValue::Int(30)]);
}

#[test]
fn placeholders_past_nine_render_two_digits() {
    let tags = vec!["t0", "t1", "t2", "t3", "t4", "t5", "t6", "t7", "t8", "t9"];
    let q = spec_with(None, false, false, vec![], tags, 30).build();
    assert_eq!(
        q.text,
        "SELECT * FROM links WHERE tags @> ARRAY[$1, $2, $3, $4, $5, $6, $7, $8, $9, $10]::text[] LIMIT $11"
    );
    assert_eq!(q.binds.len(), 11);
    assert_eq!(*q.binds.last().unwrap(), BindValue::Int(30));
}

#[test]
fn tag_containment_superset_matches() {
    let tags: Vec<String> = vec!["a", "b", "c"].into_iter().map(String::from).collect();
    let req: Vec<String> = vec!["a", "b"].into_iter().map(String::from).collect();
    assert!(tags_contain_all(&tags, &req));
}

#[test]
fn tag_containment_missing_tag_does_not_match() {
    let tags: Vec<String> = vec!["a", "b", "c"].into_iter().map(String::from).collect();
    let req: Vec<String> = vec!["a", "d"].into_iter().map(String::from).collect();
    assert!(!tags_contain_all(&tags, &req));
}

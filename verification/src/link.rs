//! The bookmark record: its mathematical value, its validation rules, and
//! the in-memory operations on it (creation, editing, the outcome of a
//! removal).

use vstd::prelude::*;
use crate::text::{
    replace_tabs, normalize_tabs, dedup_seq, dedup_strings, concat_strings, clone_strings,
    lemma_replace_tabs_no_tab, lemma_dedup_contains, lemma_dedup_no_dup,
};
use crate::web::{url_host_ok, url_canon, url_host, url_canonicalize, url_host_of};

verus! {

/// Mathematical value of a bookmark record.
#[verifier::ext_equal]
pub struct LinkView {
    pub id: int,
    pub title: Seq<char>,
    pub tags: Seq<Seq<char>>,
    pub description: Option<Seq<char>>,
    pub url: Seq<char>,
}

/// A bookmark record. `id` is assigned by storage on insert; `id == 0`
/// means "not yet persisted". `title` holds no tab characters, so that it
/// renders on one line in tabular output.
pub struct Link {
    pub id: i32,
    pub title: String,
    pub tags: Vec<String>,
    pub description: Option<String>,
    pub url: String,
}

impl View for Link {
    type V = LinkView;

    open spec fn view(&self) -> LinkView {
        LinkView {
            id: self.id as int,
            title: self.title@,
            tags: self.tags.deep_view(),
            description: self.description.deep_view(),
            url: self.url@,
        }
    }
}

impl DeepView for Link {
    type V = LinkView;

    open spec fn deep_view(&self) -> LinkView {
        self@
    }
}

impl Link {
    /// A well-formed record's title has no tab characters.
    pub open spec fn wf(&self) -> bool {
        !self@.title.contains('\t')
    }

    /// Creates a minimal record by hand: the given title with tabs
    /// normalized to single spaces, the host of the given URL as the URL
    /// field, no description, no tags, id 0. Fails exactly when the URL
    /// does not parse as an absolute URL with a host.
    pub fn new(url: &str, title: &str) -> (r: Result<Link, LinkError>)
        ensures
            r is Ok <==> url_host_ok(url@),
            r matches Ok(l) ==> l@ == (LinkView {
                id: 0,
                title: replace_tabs(title@),
                tags: Seq::empty(),
                description: None,
                url: url_host(url@),
            }) && l.wf(),
            r matches Err(e) ==> e == LinkError::InvalidUrl,
    {
        match url_host_of(url) {
            Some(host) => {
                let l = Link {
                    id: 0,
                    title: normalize_tabs(title),
                    tags: Vec::new(),
                    description: None,
                    url: host,
                };
                proof {
                    lemma_replace_tabs_no_tab(title@);
                    assert(l@ =~= (LinkView {
                        id: 0,
                        title: replace_tabs(title@),
                        tags: Seq::empty(),
                        description: None,
                        url: url_host(url@),
                    }));
                }
                Ok(l)
            },
            None => Err(LinkError::InvalidUrl),
        }
    }
}

/// The error taxonomy of the core. Transport failures and storage
/// failures carry their causes at the boundary that meets them; the core
/// itself distinguishes these three.
#[derive(Clone, Copy, Debug, PartialEq, Eq, Structural)]
pub enum LinkError {
    /// A malformed or hostless URL was given.
    InvalidUrl,
    /// An operation referenced an id that no record has.
    NotFound,
    /// An insert hit the uniqueness constraint on the URL.
    DuplicateUrl,
}

impl LinkError {
    /// A short message for reporting the error to the user.
    pub fn message(&self) -> (r: String)
        ensures
            *self is InvalidUrl ==> r@ == "invalid url"@,
            *self is NotFound ==> r@ == "link not found"@,
            *self is DuplicateUrl ==> r@ == "link already exists"@,
    {
        match self {
            LinkError::InvalidUrl => "invalid url".to_owned(),
            LinkError::NotFound => "link not found".to_owned(),
            LinkError::DuplicateUrl => "link already exists".to_owned(),
        }
    }
}

/// Mathematical value of an edit request.
pub struct EditView {
    pub append: bool,
    pub url: Option<Seq<char>>,
    pub title: Option<Seq<char>>,
    pub description: Option<Seq<char>>,
    pub tags: Option<Seq<Seq<char>>>,
}

/// One edit command: each present field overwrites the record's field;
/// tags either replace the record's tags or, with `append`, are added to
/// them with duplicates collapsed.
pub struct EditRequest {
    pub append: bool,
    pub url: Option<String>,
    pub title: Option<String>,
    pub description: Option<String>,
    pub tags: Option<Vec<String>>,
}

impl View for EditRequest {
    type V = EditView;

    open spec fn view(&self) -> EditView {
        EditView {
            append: self.append,
            url: self.url.deep_view(),
            title: self.title.deep_view(),
            description: self.description.deep_view(),
            tags: self.tags.deep_view(),
        }
    }
}

/// The record an edit request turns a record into: present fields
/// overwrite, a new URL is stored in canonical form, a new title has its
/// tabs normalized, and appended tags are deduplicated keeping first
/// occurrences in order.
pub open spec fn edit_result(l: LinkView, e: EditView) -> LinkView {
    LinkView {
        id: l.id,
        title: match e.title {
            Some(t) => replace_tabs(t),
            None => l.title,
        },
        description: match e.description {
            Some(d) => Some(d),
            None => l.description,
        },
        url: match e.url {
            Some(u) => url_canon(u),
            None => l.url,
        },
        tags: match e.tags {
            Some(t) => if e.append {
                dedup_seq(l.tags + t)
            } else {
                t
            },
            None => l.tags,
        },
    }
}

/// Applies an edit request to a record. Fails exactly when a new URL is
/// supplied that does not parse as an absolute URL with a host; in that
/// case the record is not changed at all.
pub fn apply_edit(link: Link, e: &EditRequest) -> (r: Result<Link, LinkError>)
    ensures
        r is Ok <==> (e@.url matches Some(u) ==> url_host_ok(u)),
        r matches Ok(l2) ==> l2@ == edit_result(link@, e@),
        r matches Err(err) ==> err == LinkError::InvalidUrl,
{
    let mut l = link;
    if let Some(u) = &e.url {
        match url_canonicalize(u.as_str()) {
            Some(c) => {
                l.url = c;
            },
            None => {
                return Err(LinkError::InvalidUrl);
            },
        }
    }
    if let Some(t) = &e.title {
        l.title = normalize_tabs(t.as_str());
    }
    if let Some(d) = &e.description {
        l.description = Some(d.clone());
    }
    if let Some(ts) = &e.tags {
        if e.append {
            let combined = concat_strings(&l.tags, ts);
            l.tags = dedup_strings(&combined);
        } else {
            l.tags = clone_strings(ts);
        }
    }
    proof {
        assert(l@ =~= edit_result(link@, e@));
    }
    Ok(l)
}

/// Appending tags collapses duplicates: the resulting tag sequence holds
/// each tag of the old record and of the request exactly once, and no
/// other.
pub proof fn lemma_append_tags_collapses(old_tags: Seq<Seq<char>>, new_tags: Seq<Seq<char>>)
    ensures
        forall|x: Seq<char>|
            dedup_seq(old_tags + new_tags).contains(x) <==> (old_tags.contains(x)
                || new_tags.contains(x)),
        forall|i: int, j: int|
            0 <= i < j < dedup_seq(old_tags + new_tags).len() ==> dedup_seq(old_tags + new_tags)[i]
                != dedup_seq(old_tags + new_tags)[j],
{
    lemma_dedup_no_dup(old_tags + new_tags);
    assert forall|x: Seq<char>|
        dedup_seq(old_tags + new_tags).contains(x) <==> (old_tags.contains(x)
            || new_tags.contains(x)) by {
        lemma_dedup_contains(old_tags + new_tags, x);
        let c = old_tags + new_tags;
        if old_tags.contains(x) {
            let i = choose|i: int| 0 <= i < old_tags.len() && old_tags[i] == x;
            assert(c[i] == x);
        }
        if new_tags.contains(x) {
            let i = choose|i: int| 0 <= i < new_tags.len() && new_tags[i] == x;
            assert(c[old_tags.len() + i] == x);
        }
        if c.contains(x) {
            let i = choose|i: int| 0 <= i < c.len() && c[i] == x;
            if i < old_tags.len() {
                assert(old_tags[i] == x);
            } else {
                assert(new_tags[i - old_tags.len()] == x);
            }
        }
    }
}

/// The outcome of a removal, judged from how many rows the delete touched:
/// deleting by an id that no record has touches no row and is an error,
/// never a silent success.
pub fn delete_outcome(rows_affected: u64) -> (r: Result<(), LinkError>)
    ensures
        r is Ok <==> rows_affected > 0,
        r matches Err(e) ==> e == LinkError::NotFound,
{
    if rows_affected == 0 {
        Err(LinkError::NotFound)
    } else {
        Ok(())
    }
}

} // verus!

//! The dynamic query-construction engine: a set of optional filter flags
//! is turned into one parameterized search statement — predicate text and
//! the ordered list of bound values, kept in lockstep by construction.

use vstd::prelude::*;
use crate::text::{dec_nat, dedup_seq, dedup_strings, usize_to_dec};

verus! {

/// A searchable field of a record.
#[derive(Clone, Copy, Debug, PartialEq, Eq, Structural)]
pub enum Field {
    Title,
    Desc,
}

/// Mathematical value of one bound parameter.
pub enum BindView {
    Text(Seq<char>),
    Int(int),
}

/// A value bound into the parameterized statement, never spliced into its
/// text.
#[derive(Debug, PartialEq, Eq)]
pub enum BindValue {
    Text(String),
    Int(i64),
}

impl View for BindValue {
    type V = BindView;

    open spec fn view(&self) -> BindView {
        match self {
            BindValue::Text(s) => BindView::Text(s@),
            BindValue::Int(n) => BindView::Int(*n as int),
        }
    }
}

impl DeepView for BindValue {
    type V = BindView;

    open spec fn deep_view(&self) -> BindView {
        self@
    }
}

/// Mathematical value of a filter specification.
pub struct FilterView {
    pub query: Option<Seq<char>>,
    pub regex: bool,
    pub ignore_case: bool,
    pub fields: Seq<Field>,
    pub tags: Seq<Seq<char>>,
    pub limit: u32,
}

/// The filter flags of one search: an optional free-text query, the match
/// mode, the case flag, the target fields, the required tags, and the
/// result limit.
pub struct FilterSpec {
    pub query: Option<String>,
    pub regex: bool,
    pub ignore_case: bool,
    pub fields: Vec<Field>,
    pub tags: Vec<String>,
    pub limit: u32,
}

impl View for FilterSpec {
    type V = FilterView;

    open spec fn view(&self) -> FilterView {
        FilterView {
            query: self.query.deep_view(),
            regex: self.regex,
            ignore_case: self.ignore_case,
            fields: self.fields@,
            tags: self.tags.deep_view(),
            limit: self.limit,
        }
    }
}

/// Mathematical value of a built statement.
#[verifier::ext_equal]
pub struct SqlQueryView {
    pub text: Seq<char>,
    pub binds: Seq<BindView>,
}

/// A parameterized search statement: the statement text with numbered
/// placeholders, and the values bound to them, in placeholder order.
pub struct SqlQuery {
    pub text: String,
    pub binds: Vec<BindValue>,
}

impl View for SqlQuery {
    type V = SqlQueryView;

    open spec fn view(&self) -> SqlQueryView {
        SqlQueryView { text: self.text@, binds: self.binds.deep_view() }
    }
}

/// The comparison operator the match mode picks: case-insensitive regex
/// match, or a substring match that honors the case flag.
pub open spec fn cmp_op(regex: bool, ignore_case: bool) -> Seq<char> {
    if regex {
        "~* "@
    } else if ignore_case {
        "ILIKE "@
    } else {
        "LIKE "@
    }
}

/// The numbered placeholder for the n-th bound value (1-based).
pub open spec fn placeholder(n: nat) -> Seq<char> {
    "$"@ + dec_nat(n)
}

/// One per-field comparison: for regex mode the field is compared to the
/// bound query directly; for substring modes the bound query is wrapped
/// with wildcard markers on both sides.
pub open spec fn field_clause(name: Seq<char>, regex: bool, ignore_case: bool, n: nat) -> Seq<
    char,
> {
    name + cmp_op(regex, ignore_case) + if regex {
        placeholder(n)
    } else {
        "CONCAT('%', "@ + placeholder(n) + ", '%')"@
    }
}

/// The parenthesized OR-group of per-field comparisons, in canonical
/// order: title before description, whatever order the fields were
/// requested in. Placeholders are numbered from 1; each field binds the
/// query once.
pub open spec fn text_group(has_title: bool, has_desc: bool, regex: bool, ignore_case: bool) -> Seq<
    char,
> {
    "("@ + (if has_title && has_desc {
        field_clause("title "@, regex, ignore_case, 1) + " OR "@ + field_clause(
            "description "@,
            regex,
            ignore_case,
            2,
        )
    } else if has_title {
        field_clause("title "@, regex, ignore_case, 1)
    } else if has_desc {
        field_clause("description "@, regex, ignore_case, 1)
    } else {
        Seq::empty()
    }) + ") "@
}

/// Comma-separated placeholders numbered `start` through `start + n - 1`.
pub open spec fn placeholder_list(start: nat, n: nat) -> Seq<char>
    decreases n,
{
    if n == 0 {
        Seq::empty()
    } else if n == 1 {
        placeholder(start)
    } else {
        placeholder_list(start, (n - 1) as nat) + ", "@ + placeholder((start + n - 1) as nat)
    }
}

/// How many times the free-text query is bound: once per requested target
/// field, zero when there is no query.
pub open spec fn n_query_binds(v: FilterView) -> nat {
    if v.query is Some {
        (if v.fields.contains(Field::Title) {
            1nat
        } else {
            0nat
        }) + (if v.fields.contains(Field::Desc) {
            1nat
        } else {
            0nat
        })
    } else {
        0nat
    }
}

/// The statement text a filter specification generates: the base select,
/// a WHERE keyword when any condition exists, the parenthesized text
/// group, the tag containment clause joined with AND when both exist, and
/// the bound limit last.
pub open spec fn query_text(v: FilterView) -> Seq<char> {
    let dtags = dedup_seq(v.tags);
    let nq = n_query_binds(v);
    "SELECT * FROM links"@ + (if v.query is Some || dtags.len() > 0 {
        " WHERE "@
    } else {
        Seq::empty()
    }) + (if v.query is Some {
        text_group(
            v.fields.contains(Field::Title),
            v.fields.contains(Field::Desc),
            v.regex,
            v.ignore_case,
        )
    } else {
        Seq::empty()
    }) + (if dtags.len() > 0 {
        (if v.query is Some {
            " AND "@
        } else {
            Seq::empty()
        }) + "tags @> ARRAY["@ + placeholder_list(nq + 1, dtags.len()) + "]::text[]"@
    } else {
        Seq::empty()
    }) + " LIMIT "@ + placeholder((nq + dtags.len() + 1) as nat)
}

/// Each of a sequence of tag strings as a bound text value.
pub open spec fn tag_binds(ts: Seq<Seq<char>>) -> Seq<BindView> {
    ts.map_values(|t: Seq<char>| BindView::Text(t))
}

/// The free-text query bound once per target field.
pub open spec fn query_text_binds(v: FilterView) -> Seq<BindView> {
    if v.query is Some {
        Seq::new(n_query_binds(v) as nat, |i: int| BindView::Text(v.query->0))
    } else {
        Seq::empty()
    }
}

/// The bound values a filter specification generates, in placeholder
/// order: the query once per target field, then each deduplicated tag,
/// then the limit.
pub open spec fn query_binds(v: FilterView) -> Seq<BindView> {
    query_text_binds(v) + tag_binds(dedup_seq(v.tags)) + seq![BindView::Int(v.limit as int)]
}

/// Whether the vector holds the given field.
fn contains_field(v: &Vec<Field>, f: Field) -> (r: bool)
    ensures
        r == v@.contains(f),
{
    let mut i: usize = 0;
    while i < v.len()
        invariant
            i <= v.len(),
            forall|k: int| 0 <= k < i ==> v@[k] != f,
        decreases v.len() - i,
    {
        if v[i] == f {
            return true;
        }
        i = i + 1;
    }
    false
}

/// Appends one per-field comparison and its bound query value.
fn append_field_clause(
    text: &mut String,
    binds: &mut Vec<BindValue>,
    name: &str,
    cmp: &str,
    regex: bool,
    ignore_case: bool,
    q: &String,
)
    requires
        cmp@ == cmp_op(regex, ignore_case),
    ensures
        final(binds)@.len() == old(binds)@.len() + 1,
        final(binds).deep_view() == old(binds).deep_view().push(BindView::Text(q@)),
        final(text)@ == old(text)@ + field_clause(
            name@,
            regex,
            ignore_case,
            (old(binds)@.len() + 1) as nat,
        ),
{
    text.append(name);
    text.append(cmp);
    if regex {
        push_bind(text, binds, BindValue::Text(q.clone()));
    } else {
        text.append("CONCAT('%', ");
        push_bind(text, binds, BindValue::Text(q.clone()));
        text.append(", '%')");
    }
    proof {
        assert(text@ =~= old(text)@ + field_clause(
            name@,
            regex,
            ignore_case,
            (old(binds)@.len() + 1) as nat,
        ));
        assert(binds.deep_view() =~= old(binds).deep_view().push(BindView::Text(q@)));
    }
}

/// Appends one bound value and its numbered placeholder, keeping text and
/// values in lockstep.
fn push_bind(text: &mut String, binds: &mut Vec<BindValue>, v: BindValue)
    ensures
        final(binds)@ == old(binds)@.push(v),
        final(text)@ == old(text)@ + placeholder((old(binds)@.len() + 1) as nat),
{
    binds.push(v);
    text.append("$");
    let d = usize_to_dec(binds.len());
    text.append(d.as_str());
}

impl FilterSpec {
    /// Builds the parameterized search statement for these filter flags.
    /// Construction is total: every well-typed specification yields a
    /// statement, and the text and bound values are a function of the
    /// specification value alone.
    pub fn build(&self) -> (r: SqlQuery)
        ensures
            r@.text == query_text(self@),
            r@.binds == query_binds(self@),
    {
        let mut text = String::new();
        let mut binds: Vec<BindValue> = Vec::new();
        text.append("SELECT * FROM links");
        let dtags = dedup_strings(&self.tags);
        if self.query.is_some() || dtags.len() > 0 {
            text.append(" WHERE ");
        }
        let ghost t_where = text@;
        if let Some(q) = &self.query {
            let has_title = contains_field(&self.fields, Field::Title);
            let has_desc = contains_field(&self.fields, Field::Desc);
            append_text_group(
                &mut text,
                &mut binds,
                has_title,
                has_desc,
                self.regex,
                self.ignore_case,
                q,
            );
            proof {
                assert(binds.deep_view() =~= query_text_binds(self@));
                assert(binds@.len() == n_query_binds(self@));
            }
        }
        proof {
            if self@.query is None {
                assert(binds.deep_view() =~= query_text_binds(self@));
            }
        }
        // Checkpoints after the text group: the tag clause and the limit
        // placeholder are numbered relative to these.
        let ghost text_after_group = text@;
        let ghost binds_after_group = binds.deep_view();
        let ghost nq = n_query_binds(self@);
        if dtags.len() > 0 {
            if self.query.is_some() {
                text.append(" AND ");
            }
            append_tag_array(&mut text, &mut binds, &dtags);
        }
        text.append(" LIMIT ");
        push_bind(&mut text, &mut binds, BindValue::Int(self.limit as i64));
        let r = SqlQuery { text, binds };
        proof {
            if self@.query is Some {
                if dedup_seq(self@.tags).len() > 0 {
                    assert(r@.text =~= query_text(self@));
                } else {
                    assert(r@.text =~= query_text(self@));
                }
            } else {
                if dedup_seq(self@.tags).len() > 0 {
                    assert(r@.text =~= query_text(self@));
                } else {
                    assert(r@.text =~= query_text(self@));
                }
            }
            assert(r@.binds =~= query_binds(self@));
        }
        r
    }
}

/// Appends the parenthesized OR-group for the free-text query, binding
/// the query once per present field.
fn append_text_group(
    text: &mut String,
    binds: &mut Vec<BindValue>,
    has_title: bool,
    has_desc: bool,
    regex: bool,
    ignore_case: bool,
    q: &String,
)
    requires
        old(binds)@.len() == 0,
    ensures
        final(binds)@.len() == (if has_title {
            1int
        } else {
            0int
        }) + (if has_desc {
            1int
        } else {
            0int
        }),
        final(binds).deep_view() == Seq::new(
            final(binds)@.len() as nat,
            |i: int| BindView::Text(q@),
        ),
        final(text)@ == old(text)@ + text_group(has_title, has_desc, regex, ignore_case),
{
    let cmp: &str = if regex {
        "~* "
    } else if ignore_case {
        "ILIKE "
    } else {
        "LIKE "
    };
    text.append("(");
    if has_title {
        append_field_clause(text, binds, "title ", cmp, regex, ignore_case, q);
    }
    if has_desc {
        if has_title {
            text.append(" OR ");
        }
        append_field_clause(text, binds, "description ", cmp, regex, ignore_case, q);
    }
    text.append(") ");
    proof {
        if has_title && has_desc {
            assert(text@ =~= old(text)@ + text_group(true, true, regex, ignore_case));
            assert(binds.deep_view() =~= Seq::new(2, |i: int| BindView::Text(q@)));
        } else if has_title {
            assert(text@ =~= old(text)@ + text_group(true, false, regex, ignore_case));
            assert(binds.deep_view() =~= Seq::new(1, |i: int| BindView::Text(q@)));
        } else if has_desc {
            assert(text@ =~= old(text)@ + text_group(false, true, regex, ignore_case));
            assert(binds.deep_view() =~= Seq::new(1, |i: int| BindView::Text(q@)));
        } else {
            assert(text@ =~= old(text)@ + text_group(false, false, regex, ignore_case));
            assert(binds.deep_view() =~= Seq::new(0, |i: int| BindView::Text(q@)));
        }
    }
}

/// Appends the tag containment clause: one placeholder per tag, each tag
/// bound in order.
fn append_tag_array(text: &mut String, binds: &mut Vec<BindValue>, dtags: &Vec<String>)
    ensures
        final(binds)@.len() == old(binds)@.len() + dtags@.len(),
        final(binds).deep_view() == old(binds).deep_view() + tag_binds(dtags.deep_view()),
        final(text)@ == old(text)@ + "tags @> ARRAY["@ + placeholder_list(
            (old(binds)@.len() + 1) as nat,
            dtags@.len() as nat,
        ) + "]::text[]"@,
{
    text.append("tags @> ARRAY[");
    let ghost t_arr = text@;
    let ghost b0 = old(binds).deep_view();
    let ghost nq = old(binds)@.len();
    let mut i: usize = 0;
    while i < dtags.len()
        invariant
            i <= dtags.len(),
            binds@.len() == nq + i,
            nq == b0.len(),
            text@ == t_arr + placeholder_list((nq + 1) as nat, i as nat),
            binds.deep_view() == b0 + tag_binds(dtags.deep_view().take(i as int)),
        decreases dtags.len() - i,
    {
        let ghost b_prev = binds.deep_view();
        if i > 0 {
            text.append(", ");
        }
        let ghost gtag = dtags.deep_view()[i as int];
        let tag = dtags[i].clone();
        proof {
            assert(tag@ == gtag);
        }
        push_bind(text, binds, BindValue::Text(tag));
        i = i + 1;
        proof {
            let dv = dtags.deep_view();
            assert(text@ =~= t_arr + placeholder_list((nq + 1) as nat, i as nat));
            assert(binds.deep_view() =~= b_prev.push(BindView::Text(gtag)));
            assert(tag_binds(dv.take(i as int)) =~= tag_binds(dv.take(i as int - 1)).push(
                BindView::Text(gtag),
            ));
            assert(binds.deep_view() =~= b0 + tag_binds(dv.take(i as int)));
        }
    }
    text.append("]::text[]");
    proof {
        assert(dtags.deep_view().take(dtags.len() as int) =~= dtags.deep_view());
        assert(text@ =~= old(text)@ + "tags @> ARRAY["@ + placeholder_list(
            (nq + 1) as nat,
            dtags@.len() as nat,
        ) + "]::text[]"@);
    }
}

/// Building a statement is deterministic: two builds from the same
/// specification value yield the same text and identically ordered bound
/// values.
pub proof fn lemma_build_deterministic(a: FilterView, b: FilterView)
    requires
        a == b,
    ensures
        query_text(a) == query_text(b),
        query_binds(a) == query_binds(b),
{
}

/// The generated statement does not depend on the order in which the
/// target fields were requested, nor on repetition among them: only on
/// which fields are present.
pub proof fn lemma_field_order_invariant(a: FilterView, b: FilterView)
    requires
        a.query == b.query,
        a.regex == b.regex,
        a.ignore_case == b.ignore_case,
        a.tags == b.tags,
        a.limit == b.limit,
        forall|f: Field| a.fields.contains(f) <==> b.fields.contains(f),
    ensures
        query_text(a) == query_text(b),
        query_binds(a) == query_binds(b),
{
    assert(a.fields.contains(Field::Title) == b.fields.contains(Field::Title));
    assert(a.fields.contains(Field::Desc) == b.fields.contains(Field::Desc));
    assert(n_query_binds(a) == n_query_binds(b));
}

/// Whether a record's tag sequence holds every required tag: the meaning
/// of the containment clause the builder emits — conjunctive across the
/// required tags.
pub open spec fn tags_superset(tags: Seq<Seq<char>>, required: Seq<Seq<char>>) -> bool {
    forall|i: int| 0 <= i < required.len() ==> tags.contains(required[i])
}

/// Evaluates tag containment on a record in memory: true exactly when
/// every required tag is among the record's tags.
pub fn tags_contain_all(tags: &Vec<String>, required: &Vec<String>) -> (r: bool)
    ensures
        r == tags_superset(tags.deep_view(), required.deep_view()),
{
    let mut i: usize = 0;
    while i < required.len()
        invariant
            i <= required.len(),
            forall|k: int| 0 <= k < i ==> tags.deep_view().contains(required.deep_view()[k]),
        decreases required.len() - i,
    {
        if !crate::text::contains_string(tags, &required[i]) {
            proof {
                assert(!tags.deep_view().contains(required.deep_view()[i as int]));
            }
            return false;
        }
        i = i + 1;
    }
    true
}

} // verus!

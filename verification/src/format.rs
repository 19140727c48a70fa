//! The output formatter: renders a record in one of three encodings —
//! one JSON object per line, tab-separated, or a styled human-readable
//! block — and renders the export form, a JSON array of records. Pure
//! functions of their inputs.

use vstd::prelude::*;
use crate::link::{Link, LinkView};
use crate::text::{
    dec_int, digit_char, join_sep, pad_right, pad_to_width, i64_to_dec, join_with, push_char,
};

verus! {

/// Output encodings for a record.
#[derive(Clone, Copy, Debug, PartialEq, Eq, Structural)]
pub enum PrintFormat {
    Jsonl,
    Tsv,
    Pretty,
}

/// The character for a single hexadecimal digit, lower case.
pub open spec fn hex_char(d: nat) -> char {
    if d < 10 {
        digit_char(d)
    } else if d == 10 {
        'a'
    } else if d == 11 {
        'b'
    } else if d == 12 {
        'c'
    } else if d == 13 {
        'd'
    } else if d == 14 {
        'e'
    } else {
        'f'
    }
}

/// The JSON escape of one character: quote, backslash and the named
/// control characters get two-character escapes, other control
/// characters a four-digit unicode escape, everything else stands as is.
pub open spec fn json_escape_char(c: char) -> Seq<char> {
    if c == '"' {
        "\\\""@
    } else if c == '\\' {
        "\\\\"@
    } else if c == '\n' {
        "\\n"@
    } else if c == '\r' {
        "\\r"@
    } else if c == '\t' {
        "\\t"@
    } else if c == '\u{8}' {
        "\\b"@
    } else if c == '\u{c}' {
        "\\f"@
    } else if (c as nat) < 32 {
        "\\u00"@ + seq![hex_char((c as nat) / 16)] + seq![hex_char((c as nat) % 16)]
    } else {
        seq![c]
    }
}

/// The JSON escape of a string's characters.
pub open spec fn json_escape(s: Seq<char>) -> Seq<char>
    decreases s.len(),
{
    if s.len() == 0 {
        Seq::empty()
    } else {
        json_escape(s.drop_last()) + json_escape_char(s.last())
    }
}

/// A JSON string literal: the escaped content between quotes.
pub open spec fn json_string(s: Seq<char>) -> Seq<char> {
    "\""@ + json_escape(s) + "\""@
}

/// A JSON array of string literals, comma-separated.
pub open spec fn json_string_list(ts: Seq<Seq<char>>) -> Seq<char>
    decreases ts.len(),
{
    if ts.len() == 0 {
        Seq::empty()
    } else if ts.len() == 1 {
        json_string(ts[0])
    } else {
        json_string_list(ts.drop_last()) + ","@ + json_string(ts.last())
    }
}

/// An optional string as JSON: `null` when absent.
pub open spec fn json_opt_string(o: Option<Seq<char>>) -> Seq<char> {
    match o {
        Some(s) => json_string(s),
        None => "null"@,
    }
}

/// The JSON object encoding of a record, fields in declaration order.
pub open spec fn json_of(l: LinkView) -> Seq<char> {
    "{\"id\":"@ + dec_int(l.id) + ",\"title\":"@ + json_string(l.title) + ",\"tags\":["@
        + json_string_list(l.tags) + "],\"description\":"@ + json_opt_string(l.description)
        + ",\"url\":"@ + json_string(l.url) + "}"@
}

/// The tab-separated line for a record: id, title, description or a dash
/// placeholder, comma-joined tags, URL, and a line break.
pub open spec fn tsv_of(l: LinkView) -> Seq<char> {
    dec_int(l.id) + "\t"@ + l.title + "\t"@ + (match l.description {
        Some(d) => d,
        None => "-"@,
    }) + "\t"@ + join_sep(l.tags, ","@) + "\t"@ + l.url + "\n"@
}

/// The styled human-readable block for a record: the id padded to four
/// columns and the title on the first line, then an indented description
/// line only when a description exists, the URL line, and an indented
/// tags line only when tags exist.
pub open spec fn pretty_of(l: LinkView) -> Seq<char> {
    "\u{1b}[1;38;5;3m"@ + pad_right(dec_int(l.id), 4) + "\u{1b}[0m"@ + l.title + "\n"@ + (match l
        .description {
        Some(d) => "    \u{1b}[38;5;7mdescription: \u{1b}[0m"@ + d + "\n"@,
        None => Seq::empty(),
    }) + "    \u{1b}[38;5;7murl:         \u{1b}[0m\u{1b}[38;5;4m"@ + l.url + "\n\u{1b}[0m"@ + (
    if l.tags.len() > 0 {
        "    \u{1b}[38;5;7mtags:        \u{1b}[0m"@ + join_sep(l.tags, ","@) + "\n"@
    } else {
        Seq::empty()
    })
}

/// What a record renders to in each encoding.
pub open spec fn formatted(l: LinkView, f: PrintFormat) -> Seq<char> {
    match f {
        PrintFormat::Jsonl => json_of(l) + "\n"@,
        PrintFormat::Tsv => tsv_of(l),
        PrintFormat::Pretty => pretty_of(l),
    }
}

/// The export encoding: a JSON array holding each record's object, in
/// order.
pub open spec fn json_array_of(ls: Seq<LinkView>) -> Seq<char>
    decreases ls.len(),
{
    if ls.len() == 0 {
        Seq::empty()
    } else if ls.len() == 1 {
        json_of(ls[0])
    } else {
        json_array_of(ls.drop_last()) + ","@ + json_of(ls.last())
    }
}

fn hex_to_char(d: u32) -> (c: char)
    requires
        d < 16,
    ensures
        c == hex_char(d as nat),
{
    if d == 0 { '0' } else if d == 1 { '1' } else if d == 2 { '2' } else if d == 3 { '3' }
    else if d == 4 { '4' } else if d == 5 { '5' } else if d == 6 { '6' } else if d == 7 { '7' }
    else if d == 8 { '8' } else if d == 9 { '9' } else if d == 10 { 'a' } else if d == 11 { 'b' }
    else if d == 12 { 'c' } else if d == 13 { 'd' } else if d == 14 { 'e' } else { 'f' }
}

/// Appends the JSON escape of the string's characters.
fn append_json_escaped(out: &mut String, s: &str)
    ensures
        final(out)@ == old(out)@ + json_escape(s@),
{
    let n: usize = s.unicode_len();
    let mut i: usize = 0;
    proof {
        assert(out@ =~= old(out)@ + json_escape(s@.take(0)));
    }
    while i < n
        invariant
            n == s@.len(),
            i <= n,
            out@ == old(out)@ + json_escape(s@.take(i as int)),
        decreases n - i,
    {
        let c = s.get_char(i);
        if c == '"' {
            out.append("\\\"");
        } else if c == '\\' {
            out.append("\\\\");
        } else if c == '\n' {
            out.append("\\n");
        } else if c == '\r' {
            out.append("\\r");
        } else if c == '\t' {
            out.append("\\t");
        } else if c == '\u{8}' {
            out.append("\\b");
        } else if c == '\u{c}' {
            out.append("\\f");
        } else if (c as u32) < 32 {
            out.append("\\u00");
            push_char(out, hex_to_char((c as u32) / 16));
            push_char(out, hex_to_char((c as u32) % 16));
        } else {
            push_char(out, c);
        }
        i = i + 1;
        proof {
            assert(s@.take(i as int).drop_last() =~= s@.take(i as int - 1));
            assert(s@.take(i as int).last() == s@[i as int - 1]);
            assert(out@ =~= old(out)@ + json_escape(s@.take(i as int)));
        }
    }
    proof {
        assert(s@.take(n as int) =~= s@);
    }
}

/// Appends a JSON string literal.
fn append_json_string(out: &mut String, s: &str)
    ensures
        final(out)@ == old(out)@ + json_string(s@),
{
    out.append("\"");
    append_json_escaped(out, s);
    out.append("\"");
    proof {
        assert(out@ =~= old(out)@ + json_string(s@));
    }
}

/// Appends the comma-separated JSON string literals of the tags.
fn append_json_string_list(out: &mut String, ts: &Vec<String>)
    ensures
        final(out)@ == old(out)@ + json_string_list(ts.deep_view()),
{
    let mut i: usize = 0;
    proof {
        assert(out@ =~= old(out)@ + json_string_list(ts.deep_view().take(0)));
    }
    while i < ts.len()
        invariant
            i <= ts.len(),
            out@ == old(out)@ + json_string_list(ts.deep_view().take(i as int)),
        decreases ts.len() - i,
    {
        if i > 0 {
            out.append(",");
        }
        append_json_string(out, ts[i].as_str());
        i = i + 1;
        proof {
            let dv = ts.deep_view();
            assert(dv.take(i as int).drop_last() =~= dv.take(i as int - 1));
            assert(dv.take(i as int).last() == dv[i as int - 1]);
            assert(out@ =~= old(out)@ + json_string_list(dv.take(i as int)));
        }
    }
    proof {
        assert(ts.deep_view().take(ts.len() as int) =~= ts.deep_view());
    }
}

/// Appends the JSON object encoding of a record.
fn append_json_of(out: &mut String, l: &Link)
    ensures
        final(out)@ == old(out)@ + json_of(l@),
{
    out.append("{\"id\":");
    let id = i64_to_dec(l.id as i64);
    out.append(id.as_str());
    out.append(",\"title\":");
    append_json_string(out, l.title.as_str());
    out.append(",\"tags\":[");
    append_json_string_list(out, &l.tags);
    out.append("],\"description\":");
    match &l.description {
        Some(d) => {
            append_json_string(out, d.as_str());
        },
        None => {
            out.append("null");
        },
    }
    out.append(",\"url\":");
    append_json_string(out, l.url.as_str());
    out.append("}");
    proof {
        assert(out@ =~= old(out)@ + json_of(l@));
    }
}

impl Link {
    /// Renders the record in the given output encoding.
    pub fn print(&self, format: &PrintFormat) -> (r: String)
        ensures
            r@ == formatted(self@, *format),
    {
        match format {
            PrintFormat::Jsonl => {
                let mut out = String::new();
                append_json_of(&mut out, self);
                out.append("\n");
                proof {
                    assert(out@ =~= formatted(self@, *format));
                }
                out
            },
            PrintFormat::Tsv => {
                let mut out = String::new();
                let id = i64_to_dec(self.id as i64);
                out.append(id.as_str());
                out.append("\t");
                out.append(self.title.as_str());
                out.append("\t");
                match &self.description {
                    Some(d) => {
                        out.append(d.as_str());
                    },
                    None => {
                        out.append("-");
                    },
                }
                out.append("\t");
                let tags = join_with(&self.tags, ",");
                out.append(tags.as_str());
                out.append("\t");
                out.append(self.url.as_str());
                out.append("\n");
                proof {
                    assert(out@ =~= formatted(self@, *format));
                }
                out
            },
            PrintFormat::Pretty => {
                let mut out = String::new();
                out.append("\u{1b}[1;38;5;3m");
                let id = pad_to_width(i64_to_dec(self.id as i64), 4);
                out.append(id.as_str());
                out.append("\u{1b}[0m");
                out.append(self.title.as_str());
                out.append("\n");
                if let Some(d) = &self.description {
                    out.append("    \u{1b}[38;5;7mdescription: \u{1b}[0m");
                    out.append(d.as_str());
                    out.append("\n");
                }
                out.append("    \u{1b}[38;5;7murl:         \u{1b}[0m\u{1b}[38;5;4m");
                out.append(self.url.as_str());
                out.append("\n\u{1b}[0m");
                if self.tags.len() > 0 {
                    out.append("    \u{1b}[38;5;7mtags:        \u{1b}[0m");
                    let tags = join_with(&self.tags, ",");
                    out.append(tags.as_str());
                    out.append("\n");
                }
                proof {
                    assert(out@ =~= formatted(self@, *format));
                }
                out
            },
        }
    }
}

/// Renders the export form of a record collection: one JSON array with
/// every record's object, in order.
pub fn export_json(links: &Vec<Link>) -> (r: String)
    ensures
        r@ == "["@ + json_array_of(links.deep_view()) + "]"@,
{
    let mut out = String::new();
    out.append("[");
    let ghost t0 = out@;
    let mut i: usize = 0;
    proof {
        assert(out@ =~= t0 + json_array_of(links.deep_view().take(0)));
    }
    while i < links.len()
        invariant
            i <= links.len(),
            out@ == t0 + json_array_of(links.deep_view().take(i as int)),
        decreases links.len() - i,
    {
        if i > 0 {
            out.append(",");
        }
        append_json_of(&mut out, &links[i]);
        i = i + 1;
        proof {
            let dv = links.deep_view();
            assert(dv.take(i as int).drop_last() =~= dv.take(i as int - 1));
            assert(dv.take(i as int).last() == dv[i as int - 1]);
            assert(out@ =~= t0 + json_array_of(dv.take(i as int)));
        }
    }
    out.append("]");
    proof {
        assert(links.deep_view().take(links.len() as int) =~= links.deep_view());
        assert(out@ =~= "["@ + json_array_of(links.deep_view()) + "]"@);
    }
    out
}

/// One line of the tag-occurrence listing: the count left-aligned and
/// padded to seven columns, a space, the tag, a line break.
pub open spec fn tag_count_line(tag: Seq<char>, count: int) -> Seq<char> {
    pad_right(dec_int(count), 7) + " "@ + tag + "\n"@
}

/// Renders one line of the tag-occurrence listing.
pub fn format_tag_count(tag: &str, count: i64) -> (r: String)
    ensures
        r@ == tag_count_line(tag@, count as int),
{
    let mut out = pad_to_width(i64_to_dec(count), 7);
    out.append(" ");
    out.append(tag);
    out.append("\n");
    proof {
        assert(out@ =~= tag_count_line(tag@, count as int));
    }
    out
}

} // verus!

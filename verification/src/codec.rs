//! The frontmatter codec: a snippet is serialized to a markdown document
//! carrying a delimited metadata block (`---` lines around `key: value`
//! pairs), followed by the raw content.
//!
//! Decoding is tolerant: a document with two delimiter occurrences always
//! decodes, with missing keys defaulting to the empty string and a missing,
//! empty or literal-`null` description decoding to "no description". Only
//! a document with fewer than two delimiter occurrences is a format error.
use vstd::prelude::*;

use crate::snippet::Snippet;
use crate::snippet::SnippetView;
use crate::text::match_at;
use crate::text::starts_with_seq;
use crate::text::has_no_char;
use crate::text::find_first;
use crate::text::str_starts_with;
use crate::text::str_eq;
use crate::text::split_char;
use crate::text::split_char_exec;
use vstd::string::StringExecFns;
use vstd::string::StrSliceExecFns;

verus! {

/// Malformed frontmatter: the document does not contain the two delimiter
/// occurrences that separate the metadata block from the content.
#[derive(Debug)]
pub struct FormatError {}

/// The metadata block delimiter.
pub open spec fn delim() -> Seq<char> {
    "---"@
}

/// What the absent description is encoded as.
pub open spec fn null_marker() -> Seq<char> {
    "null"@
}

/// The description field as written into the document.
pub open spec fn desc_field(d: Option<Seq<char>>) -> Seq<char> {
    match d {
        Some(x) => x,
        None => null_marker(),
    }
}

/// The document encoding a snippet.
pub open spec fn encode_spec(s: SnippetView) -> Seq<char> {
    "---\nid: "@ + s.id + "\nname: "@ + s.name + "\ncreated_at: "@ + s.created_at
        + "\ndescription: "@ + desc_field(s.description) + "\n---\n\n"@ + s.content
}

/// Serializes a snippet to a markdown document with a frontmatter block.
pub fn create_markdown_with_frontmatter(snippet: &Snippet) -> (r: String)
    ensures
        r@ == encode_spec(snippet@),
{
    let mut out = String::new();
    out.append("---\nid: ");
    out.append(snippet.id.as_str());
    out.append("\nname: ");
    out.append(snippet.name.as_str());
    out.append("\ncreated_at: ");
    out.append(snippet.created_at.as_str());
    out.append("\ndescription: ");
    match &snippet.description {
        Some(d) => out.append(d.as_str()),
        None => out.append("null"),
    }
    out.append("\n---\n\n");
    out.append(snippet.content.as_str());
    assert(out@ =~= encode_spec(snippet@));
    out
}

/// Position of the first occurrence of `pat` in `hay` at or after `from`.
pub open spec fn find_spec(hay: Seq<char>, pat: Seq<char>, from: nat) -> Option<nat>
    decreases hay.len() + 1 - from,
{
    if from + pat.len() > hay.len() {
        None
    } else if match_at(hay, pat, from as int) {
        Some(from)
    } else {
        find_spec(hay, pat, from + 1)
    }
}

/// The document with its leading newline characters removed.
pub open spec fn drop_leading_newlines(s: Seq<char>) -> Seq<char>
    decreases s.len(),
{
    if s.len() > 0 && s[0] == '\n' {
        drop_leading_newlines(s.drop_first())
    } else {
        s
    }
}

/// The value of the first line of `lines` that begins with `key`, with the
/// key removed.
pub open spec fn first_value(lines: Seq<Seq<char>>, key: Seq<char>) -> Option<Seq<char>>
    decreases lines.len(),
{
    if lines.len() == 0 {
        None
    } else if starts_with_seq(lines[0], key) {
        Some(lines[0].subrange(key.len() as int, lines[0].len() as int))
    } else {
        first_value(lines.drop_first(), key)
    }
}

pub open spec fn or_empty(v: Option<Seq<char>>) -> Seq<char> {
    match v {
        Some(x) => x,
        None => Seq::empty(),
    }
}

/// A missing, empty, or literal-`null` description means "no description".
pub open spec fn normalize_desc(v: Option<Seq<char>>) -> Option<Seq<char>> {
    match v {
        None => None,
        Some(x) => if x == null_marker() || x.len() == 0 {
            None
        } else {
            Some(x)
        },
    }
}

/// The snippet encoded by a document, if the document has a well-delimited
/// metadata block.
pub open spec fn decode_spec(doc: Seq<char>) -> Option<SnippetView> {
    match find_spec(doc, delim(), 0) {
        None => None,
        Some(p1) => match find_spec(doc, delim(), (p1 + 3) as nat) {
            None => None,
            Some(p2) => {
                let fm = doc.subrange(p1 + 3 as int, p2 as int);
                let rest = doc.subrange(p2 + 3 as int, doc.len() as int);
                let lines = split_char(fm, '\n');
                Some(SnippetView {
                    id: or_empty(first_value(lines, "id: "@)),
                    name: or_empty(first_value(lines, "name: "@)),
                    content: drop_leading_newlines(rest),
                    created_at: or_empty(first_value(lines, "created_at: "@)),
                    description: normalize_desc(first_value(lines, "description: "@)),
                })
            },
        },
    }
}

/// A search that found `i` as the leftmost match at or after `from` agrees
/// with `find_spec`.
proof fn lemma_find_spec_some(hay: Seq<char>, pat: Seq<char>, from: nat, i: nat)
    requires
        from <= i,
        match_at(hay, pat, i as int),
        forall|j: int| from <= j < i ==> !match_at(hay, pat, j),
    ensures
        find_spec(hay, pat, from) == Some(i),
    decreases i - from,
{
    if from < i {
        lemma_find_spec_some(hay, pat, (from + 1) as nat, i);
    }
}

/// A search that found no match at or after `from` agrees with `find_spec`.
proof fn lemma_find_spec_none(hay: Seq<char>, pat: Seq<char>, from: nat)
    requires
        forall|j: int| from <= j ==> !match_at(hay, pat, j),
    ensures
        find_spec(hay, pat, from) is None,
    decreases hay.len() + 1 - from,
{
    if from + pat.len() <= hay.len() {
        lemma_find_spec_none(hay, pat, (from + 1) as nat);
    }
}

/// Removes the leading newlines of `s`, returning the remainder.
fn strip_leading_newlines(s: &str) -> (r: String)
    ensures
        r@ == drop_leading_newlines(s@),
{
    let len = s.unicode_len();
    let mut k: usize = 0;
    proof {
        assert(s@.subrange(0, len as int) =~= s@);
    }
    while k < len && s.get_char(k) == '\n'
        invariant
            k <= len,
            len == s@.len(),
            drop_leading_newlines(s@) == drop_leading_newlines(s@.subrange(k as int, len as int)),
        decreases len - k,
    {
        proof {
            let tail = s@.subrange(k as int, len as int);
            assert(tail.drop_first() =~= s@.subrange(k + 1, len as int));
        }
        k += 1;
    }
    let r = String::from_str(s.substring_char(k, len));
    proof {
        let tail = s@.subrange(k as int, len as int);
        if k < len {
            assert(tail[0] != '\n');
        }
        assert(drop_leading_newlines(tail) == tail);
    }
    r
}

/// The value of the first line beginning with `key`, with the key removed.
fn first_value_exec(lines: &Vec<String>, key: &str) -> (r: Option<String>)
    ensures
        match r {
            Some(v) => first_value(lines.deep_view(), key@) == Some(v@),
            None => first_value(lines.deep_view(), key@) is None,
        },
{
    let key_len = key.unicode_len();
    let n = lines.len();
    let mut i: usize = 0;
    proof {
        assert(lines.deep_view().subrange(0, n as int) =~= lines.deep_view());
    }
    while i < n
        invariant
            i <= n,
            n == lines.len(),
            key_len == key@.len(),
            first_value(lines.deep_view(), key@) == first_value(
                lines.deep_view().subrange(i as int, n as int),
                key@,
            ),
        decreases n - i,
    {
        let ghost tail = lines.deep_view().subrange(i as int, n as int);
        proof {
            assert(tail[0] == lines.deep_view()[i as int]);
            assert(tail.drop_first() =~= lines.deep_view().subrange(i + 1, n as int));
        }
        let line = &lines[i];
        if str_starts_with(line.as_str(), key) {
            let line_len = line.as_str().unicode_len();
            let v = String::from_str(line.as_str().substring_char(key_len, line_len));
            return Some(v);
        }
        i += 1;
    }
    proof {
        assert(lines.deep_view().subrange(n as int, n as int) =~= Seq::<Seq<char>>::empty());
    }
    None
}

/// Decodes a markdown document with a frontmatter block into a snippet.
///
/// Fails exactly when the document holds fewer than two occurrences of the
/// delimiter; every other document decodes, with missing keys defaulting
/// to the empty string.
pub fn parse_markdown_frontmatter(content: &str) -> (r: Result<Snippet, FormatError>)
    ensures
        match r {
            Ok(s) => decode_spec(content@) == Some(s@),
            Err(_) => decode_spec(content@) is None,
        },
        r is Ok <==> decode_spec(content@) is Some,
{
    let len = content.unicode_len();
    let p1 = match find_first(content, "---", 0) {
        Some(p) => p,
        None => {
            proof {
                lemma_find_spec_none(content@, delim(), 0);
            }
            return Err(FormatError {});
        },
    };
    proof {
        lemma_find_spec_some(content@, delim(), 0, p1 as nat);
        reveal_strlit("---");
    }
    let p2 = match find_first(content, "---", p1 + 3) {
        Some(p) => p,
        None => {
            proof {
                lemma_find_spec_none(content@, delim(), (p1 + 3) as nat);
            }
            return Err(FormatError {});
        },
    };
    proof {
        lemma_find_spec_some(content@, delim(), (p1 + 3) as nat, p2 as nat);
    }
    let fm = content.substring_char(p1 + 3, p2);
    let rest = content.substring_char(p2 + 3, len);
    let body = strip_leading_newlines(rest);
    let lines = split_char_exec(fm, '\n');
    let id = match first_value_exec(&lines, "id: ") {
        Some(v) => v,
        None => String::new(),
    };
    let name = match first_value_exec(&lines, "name: ") {
        Some(v) => v,
        None => String::new(),
    };
    let created_at = match first_value_exec(&lines, "created_at: ") {
        Some(v) => v,
        None => String::new(),
    };
    let description = match first_value_exec(&lines, "description: ") {
        Some(v) => {
            if str_eq(v.as_str(), "null") || v.as_str().unicode_len() == 0 {
                None
            } else {
                Some(v)
            }
        },
        None => None,
    };
    let snippet = Snippet { id, name, content: body, created_at, description };
    proof {
        assert(decode_spec(content@) == Some(snippet@));
    }
    Ok(snippet)
}

/// The delimiter occurs nowhere in `s`.
pub open spec fn no_delim(s: Seq<char>) -> bool {
    forall|i: int| !match_at(s, delim(), i)
}

/// A field that survives a round trip through the codec: it spans no line
/// break and cannot be mistaken for a delimiter.
pub open spec fn field_ok(f: Seq<char>) -> bool {
    has_no_char(f, '\n') && no_delim(f)
}

/// A snippet that survives a round trip through the codec: its one-line
/// fields hold no line break and no delimiter, its description is not
/// mistakable for the absent-marker, and its content does not begin with
/// the newline that separates the metadata block from the content.
pub open spec fn roundtrip_safe(s: SnippetView) -> bool {
    &&& field_ok(s.id)
    &&& field_ok(s.name)
    &&& field_ok(s.created_at)
    &&& match s.description {
        Some(d) => field_ok(d) && d != null_marker() && d.len() > 0,
        None => true,
    }
    &&& (s.content.len() == 0 || s.content[0] != '\n')
}

/// A sequence without dashes holds no delimiter.
proof fn lemma_no_dash_no_delim(s: Seq<char>)
    requires
        has_no_char(s, '-'),
    ensures
        no_delim(s),
{
    reveal_strlit("---");
    assert forall|i: int| !match_at(s, delim(), i) by {
        if match_at(s, delim(), i) {
            assert(s.subrange(i, i + 3)[0] == delim()[0]);
            assert(s[i] == '-');
        }
    }
}

/// Concatenation preserves delimiter-freedom when the seam cannot complete
/// a delimiter.
proof fn lemma_no_delim_concat(a: Seq<char>, b: Seq<char>)
    requires
        no_delim(a),
        no_delim(b),
        a.len() == 0 || b.len() == 0 || a[a.len() - 1] != '-' || b[0] != '-',
    ensures
        no_delim(a + b),
{
    reveal_strlit("---");
    let ab = a + b;
    assert forall|i: int| !match_at(ab, delim(), i) by {
        if match_at(ab, delim(), i) {
            assert(ab.subrange(i, i + 3)[0] == delim()[0]);
            assert(ab.subrange(i, i + 3)[1] == delim()[1]);
            assert(ab.subrange(i, i + 3)[2] == delim()[2]);
            assert(ab[i] == '-' && ab[i + 1] == '-' && ab[i + 2] == '-');
            if i + 3 <= a.len() {
                assert(a.subrange(i, i + 3) =~= ab.subrange(i, i + 3));
                assert(match_at(a, delim(), i));
            } else if i >= a.len() {
                assert(b.subrange(i - a.len(), i - a.len() + 3) =~= ab.subrange(i, i + 3));
                assert(match_at(b, delim(), i - a.len()));
            } else {
                assert(i <= a.len() - 1 < i + 3);
                assert(i <= a.len() < i + 3);
                assert(a[a.len() - 1] == ab[a.len() - 1] == '-');
                assert(b[0] == ab[a.len() as int] == '-');
            }
        }
    }
}

/// Splitting starts with the first separator-free segment.
proof fn lemma_split_char_append(a: Seq<char>, rest: Seq<char>, sep: char)
    requires
        has_no_char(a, sep),
    ensures
        split_char(a + seq![sep] + rest, sep) == seq![a] + split_char(rest, sep),
    decreases a.len(),
{
    let s = a + seq![sep] + rest;
    if a.len() == 0 {
        assert(s =~= seq![sep] + rest);
        assert(s[0] == sep);
        assert(s.drop_first() =~= rest);
        assert(a =~= Seq::<char>::empty());
        assert(split_char(s, sep) =~~= seq![a] + split_char(rest, sep));
    } else {
        assert(s[0] == a[0]);
        let a2 = a.drop_first();
        assert(s.drop_first() =~= a2 + seq![sep] + rest);
        lemma_split_char_append(a2, rest, sep);
        let r2 = split_char(a2 + seq![sep] + rest, sep);
        assert(r2 == seq![a2] + split_char(rest, sep));
        assert(r2[0] == a2);
        assert(seq![s[0]] + a2 =~= a);
        assert(r2.drop_first() =~= split_char(rest, sep));
        assert(split_char(s, sep) =~~= seq![a] + split_char(rest, sep));
    }
}

/// Two leading newlines are removed, and no more.
proof fn lemma_drop_two_newlines(c: Seq<char>)
    requires
        c.len() == 0 || c[0] != '\n',
    ensures
        drop_leading_newlines("\n\n"@ + c) == c,
{
    reveal_strlit("\n\n");
    let s0 = "\n\n"@ + c;
    assert(s0[0] == '\n');
    let s1 = s0.drop_first();
    assert(s1.len() == 1 + c.len());
    assert(s1[0] == '\n');
    let s2 = s1.drop_first();
    assert(s2 =~= c);
    assert(drop_leading_newlines(s0) == drop_leading_newlines(s1));
    assert(drop_leading_newlines(s1) == drop_leading_newlines(s2));
    assert(drop_leading_newlines(c) == c);
}

/// The four metadata lines and the metadata block of an encoded snippet.
pub open spec fn line_id(s: SnippetView) -> Seq<char> {
    "id: "@ + s.id
}

pub open spec fn line_name(s: SnippetView) -> Seq<char> {
    "name: "@ + s.name
}

pub open spec fn line_created(s: SnippetView) -> Seq<char> {
    "created_at: "@ + s.created_at
}

pub open spec fn line_desc(s: SnippetView) -> Seq<char> {
    "description: "@ + desc_field(s.description)
}

pub open spec fn meta_block(s: SnippetView) -> Seq<char> {
    seq!['\n'] + line_id(s) + seq!['\n'] + line_name(s) + seq!['\n'] + line_created(s)
        + seq!['\n'] + line_desc(s) + seq!['\n']
}

/// The description field of a round-trip-safe snippet spans no line break
/// and holds no delimiter.
proof fn lemma_desc_field_ok(s: SnippetView)
    requires
        roundtrip_safe(s),
    ensures
        desc_field(s.description).len() > 0,
        has_no_char(desc_field(s.description), '\n'),
        no_delim(desc_field(s.description)),
{
    match s.description {
        Some(d) => {},
        None => {
            reveal_strlit("null");
            assert(desc_field(s.description) == null_marker());
            assert(has_no_char(null_marker(), '-'));
            lemma_no_dash_no_delim(null_marker());
        },
    }
}

/// An encoded document is the delimiter, the metadata block, the delimiter
/// again, a blank line, and the content.
proof fn lemma_encode_shape(s: SnippetView)
    ensures
        encode_spec(s) == delim() + meta_block(s) + delim() + "\n\n"@ + s.content,
{
    reveal_strlit("---");
    reveal_strlit("\n\n");
    reveal_strlit("id: ");
    reveal_strlit("name: ");
    reveal_strlit("created_at: ");
    reveal_strlit("description: ");
    reveal_strlit("---\nid: ");
    reveal_strlit("\nname: ");
    reveal_strlit("\ncreated_at: ");
    reveal_strlit("\ndescription: ");
    reveal_strlit("\n---\n\n");
    assert(encode_spec(s) =~= delim() + meta_block(s) + delim() + "\n\n"@ + s.content);
}

/// The metadata block of a round-trip-safe snippet holds no delimiter.
proof fn lemma_meta_block_no_delim(s: SnippetView)
    requires
        roundtrip_safe(s),
    ensures
        no_delim(meta_block(s)),
{
    reveal_strlit("id: ");
    reveal_strlit("name: ");
    reveal_strlit("created_at: ");
    reveal_strlit("description: ");
    lemma_desc_field_ok(s);
    let desc = desc_field(s.description);
    let nl = seq!['\n'];
    assert(has_no_char(nl, '-'));
    lemma_no_dash_no_delim(nl);
    assert(has_no_char("id: "@, '-'));
    lemma_no_dash_no_delim("id: "@);
    assert(has_no_char("name: "@, '-'));
    lemma_no_dash_no_delim("name: "@);
    assert(has_no_char("created_at: "@, '-'));
    lemma_no_dash_no_delim("created_at: "@);
    assert(has_no_char("description: "@, '-'));
    lemma_no_dash_no_delim("description: "@);
    lemma_no_delim_concat("id: "@, s.id);
    lemma_no_delim_concat("name: "@, s.name);
    lemma_no_delim_concat("created_at: "@, s.created_at);
    lemma_no_delim_concat("description: "@, desc);
    lemma_no_delim_concat(nl, line_id(s));
    lemma_no_delim_concat(nl + line_id(s), nl);
    lemma_no_delim_concat(nl + line_id(s) + nl, line_name(s));
    lemma_no_delim_concat(nl + line_id(s) + nl + line_name(s), nl);
    lemma_no_delim_concat(nl + line_id(s) + nl + line_name(s) + nl, line_created(s));
    lemma_no_delim_concat(nl + line_id(s) + nl + line_name(s) + nl + line_created(s), nl);
    lemma_no_delim_concat(
        nl + line_id(s) + nl + line_name(s) + nl + line_created(s) + nl,
        line_desc(s),
    );
    lemma_no_delim_concat(
        nl + line_id(s) + nl + line_name(s) + nl + line_created(s) + nl + line_desc(s),
        nl,
    );
}

/// In an encoded document the delimiter first occurs at position 0, and
/// next right after the metadata block.
proof fn lemma_encode_occurrences(s: SnippetView)
    requires
        roundtrip_safe(s),
    ensures
        find_spec(encode_spec(s), delim(), 0) == Some(0nat),
        find_spec(encode_spec(s), delim(), 3nat) == Some((3 + meta_block(s).len()) as nat),
{
    reveal_strlit("---");
    lemma_encode_shape(s);
    lemma_meta_block_no_delim(s);
    let doc = encode_spec(s);
    let m = meta_block(s);
    let q = 3 + m.len() as int;
    assert(doc.subrange(0, 3) =~= delim());
    assert(match_at(doc, delim(), 0));
    assert(doc.subrange(q, q + 3) =~= delim());
    assert(match_at(doc, delim(), q));
    assert(m[0] == '\n');
    assert(m[m.len() - 1] == '\n');
    assert forall|p: int| 1 <= p < q implies !match_at(doc, delim(), p) by {
        if match_at(doc, delim(), p) {
            assert(doc.subrange(p, p + 3)[0] == delim()[0]);
            assert(doc.subrange(p, p + 3)[1] == delim()[1]);
            assert(doc.subrange(p, p + 3)[2] == delim()[2]);
            assert(doc[p] == '-' && doc[p + 1] == '-' && doc[p + 2] == '-');
            if p <= 2 {
                assert(doc[3] == m[0]);
                assert(p + 1 == 3 || p + 2 == 3);
            } else if p + 3 <= q {
                assert(doc.subrange(p, p + 3) =~= m.subrange(p - 3, p));
                assert(match_at(m, delim(), p - 3));
            } else {
                assert(p <= q - 1 < p + 3);
                assert(doc[q - 1] == m[m.len() - 1]);
            }
        }
    }
    lemma_find_spec_some(doc, delim(), 0, 0);
    lemma_find_spec_some(doc, delim(), 3, q as nat);
}

/// The metadata block splits into exactly the six expected lines.
proof fn lemma_meta_block_lines(s: SnippetView)
    requires
        roundtrip_safe(s),
    ensures
        split_char(meta_block(s), '\n') == seq![
            Seq::<char>::empty(),
            line_id(s),
            line_name(s),
            line_created(s),
            line_desc(s),
            Seq::<char>::empty(),
        ],
{
    reveal_strlit("id: ");
    reveal_strlit("name: ");
    reveal_strlit("created_at: ");
    reveal_strlit("description: ");
    lemma_desc_field_ok(s);
    let nl = seq!['\n'];
    let m = meta_block(s);
    let r5 = Seq::<char>::empty();
    let r4 = line_desc(s) + nl + r5;
    let r3 = line_created(s) + nl + r4;
    let r2 = line_name(s) + nl + r3;
    let r1 = line_id(s) + nl + r2;
    assert(m =~= Seq::<char>::empty() + nl + r1);
    assert(has_no_char(line_id(s), '\n'));
    assert(has_no_char(line_name(s), '\n'));
    assert(has_no_char(line_created(s), '\n'));
    assert(has_no_char(line_desc(s), '\n'));
    lemma_split_char_append(Seq::<char>::empty(), r1, '\n');
    lemma_split_char_append(line_id(s), r2, '\n');
    lemma_split_char_append(line_name(s), r3, '\n');
    lemma_split_char_append(line_created(s), r4, '\n');
    lemma_split_char_append(line_desc(s), r5, '\n');
    assert(split_char(r5, '\n') == seq![Seq::<char>::empty()]);
    assert(split_char(m, '\n') =~~= seq![
        Seq::<char>::empty(),
        line_id(s),
        line_name(s),
        line_created(s),
        line_desc(s),
        Seq::<char>::empty(),
    ]);
}

/// Looking each key up in the six lines yields that key's field.
proof fn lemma_lines_values(s: SnippetView)
    requires
        roundtrip_safe(s),
    ensures
        ({
            let lines = split_char(meta_block(s), '\n');
            &&& first_value(lines, "id: "@) == Some(s.id)
            &&& first_value(lines, "name: "@) == Some(s.name)
            &&& first_value(lines, "created_at: "@) == Some(s.created_at)
            &&& first_value(lines, "description: "@) == Some(desc_field(s.description))
        }),
{
    reveal_strlit("id: ");
    reveal_strlit("name: ");
    reveal_strlit("created_at: ");
    reveal_strlit("description: ");
    lemma_meta_block_lines(s);
    let lines = split_char(meta_block(s), '\n');
    let empty_line = Seq::<char>::empty();
    let l_id = line_id(s);
    let l_name = line_name(s);
    let l_created = line_created(s);
    let l_desc = line_desc(s);
    let desc = desc_field(s.description);

    assert(!starts_with_seq(empty_line, "id: "@));
    assert(!starts_with_seq(empty_line, "name: "@));
    assert(!starts_with_seq(empty_line, "created_at: "@));
    assert(!starts_with_seq(empty_line, "description: "@));

    assert(starts_with_seq(l_id, "id: "@)) by {
        assert(l_id.subrange(0, 4) =~= "id: "@);
    }
    assert(starts_with_seq(l_name, "name: "@)) by {
        assert(l_name.subrange(0, 6) =~= "name: "@);
    }
    assert(starts_with_seq(l_created, "created_at: "@)) by {
        assert(l_created.subrange(0, 12) =~= "created_at: "@);
    }
    assert(starts_with_seq(l_desc, "description: "@)) by {
        assert(l_desc.subrange(0, 13) =~= "description: "@);
    }

    assert(!starts_with_seq(l_id, "name: "@)) by {
        if starts_with_seq(l_id, "name: "@) {
            assert(l_id.subrange(0, 6)[0] == "name: "@[0]);
        }
    }
    assert(!starts_with_seq(l_id, "created_at: "@)) by {
        if starts_with_seq(l_id, "created_at: "@) {
            assert(l_id.subrange(0, 12)[0] == "created_at: "@[0]);
        }
    }
    assert(!starts_with_seq(l_name, "created_at: "@)) by {
        if starts_with_seq(l_name, "created_at: "@) {
            assert(l_name.subrange(0, 12)[0] == "created_at: "@[0]);
        }
    }
    assert(!starts_with_seq(l_id, "description: "@)) by {
        if starts_with_seq(l_id, "description: "@) {
            assert(l_id.subrange(0, 13)[0] == "description: "@[0]);
        }
    }
    assert(!starts_with_seq(l_name, "description: "@)) by {
        if starts_with_seq(l_name, "description: "@) {
            assert(l_name.subrange(0, 13)[0] == "description: "@[0]);
        }
    }
    assert(!starts_with_seq(l_created, "description: "@)) by {
        if starts_with_seq(l_created, "description: "@) {
            assert(l_created.subrange(0, 13)[0] == "description: "@[0]);
        }
    }

    let tail1 = lines.drop_first();
    let tail2 = tail1.drop_first();
    let tail3 = tail2.drop_first();
    let tail4 = tail3.drop_first();
    assert(tail1 =~~= seq![l_id, l_name, l_created, l_desc, empty_line]);
    assert(tail2 =~~= seq![l_name, l_created, l_desc, empty_line]);
    assert(tail3 =~~= seq![l_created, l_desc, empty_line]);
    assert(tail4 =~~= seq![l_desc, empty_line]);

    assert(first_value(lines, "id: "@) == first_value(tail1, "id: "@));
    assert(first_value(tail1, "id: "@) == Some(l_id.subrange(4, l_id.len() as int)));
    assert(l_id.subrange(4, l_id.len() as int) =~= s.id);

    assert(first_value(lines, "name: "@) == first_value(tail1, "name: "@));
    assert(first_value(tail1, "name: "@) == first_value(tail2, "name: "@));
    assert(first_value(tail2, "name: "@) == Some(l_name.subrange(6, l_name.len() as int)));
    assert(l_name.subrange(6, l_name.len() as int) =~= s.name);

    assert(first_value(lines, "created_at: "@) == first_value(tail1, "created_at: "@));
    assert(first_value(tail1, "created_at: "@) == first_value(tail2, "created_at: "@));
    assert(first_value(tail2, "created_at: "@) == first_value(tail3, "created_at: "@));
    assert(first_value(tail3, "created_at: "@) == Some(
        l_created.subrange(12, l_created.len() as int),
    ));
    assert(l_created.subrange(12, l_created.len() as int) =~= s.created_at);

    assert(first_value(lines, "description: "@) == first_value(tail1, "description: "@));
    assert(first_value(tail1, "description: "@) == first_value(tail2, "description: "@));
    assert(first_value(tail2, "description: "@) == first_value(tail3, "description: "@));
    assert(first_value(tail3, "description: "@) == first_value(tail4, "description: "@));
    assert(first_value(tail4, "description: "@) == Some(
        l_desc.subrange(13, l_desc.len() as int),
    ));
    assert(l_desc.subrange(13, l_desc.len() as int) =~= desc);
}

/// Round trip: decoding an encoded snippet restores it exactly. A snippet
/// without a description is encoded with the absent-marker, which decodes
/// back to "no description", so the equality covers both cases.
#[verifier::rlimit(50)]
pub proof fn lemma_encode_decode_roundtrip(s: SnippetView)
    requires
        roundtrip_safe(s),
    ensures
        decode_spec(encode_spec(s)) == Some(s),
{
    reveal_strlit("null");
    reveal_strlit("---");
    reveal_strlit("\n\n");
    lemma_encode_shape(s);
    lemma_encode_occurrences(s);
    lemma_lines_values(s);
    lemma_desc_field_ok(s);
    let doc = encode_spec(s);
    let m = meta_block(s);
    let q = 3 + m.len() as int;
    let fm = doc.subrange(3, q);
    let rest = doc.subrange(q + 3, doc.len() as int);
    assert(fm =~= m);
    assert(rest =~= "\n\n"@ + s.content);
    lemma_drop_two_newlines(s.content);
    assert(drop_leading_newlines(rest) == s.content);
    let desc = desc_field(s.description);
    assert(normalize_desc(Some(desc)) == s.description) by {
        match s.description {
            Some(d) => {
                assert(desc == d);
            },
            None => {
                assert(desc == null_marker());
            },
        }
    }
    let decoded = decode_spec(doc)->Some_0;
    assert(decoded =~= s);
}

} // verus!

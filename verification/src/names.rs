//! Names and filenames: sanitizing a query into a file name, deriving a
//! readable name back from a file name, generating a name from content,
//! and assembling the published document.
use vstd::prelude::*;

use crate::snippet::Snippet;
use crate::text::is_alphanumeric_char;
use crate::text::char_is_alphanumeric;
use crate::text::lower_of;
use crate::text::to_lowercase;
use crate::text::trim_spec;
use crate::text::trim;
use crate::text::replace_all;
use crate::text::replace_all_str;
use crate::text::lines_of;
use crate::text::lines_exec;
use crate::text::split_ws;
use crate::text::split_whitespace_terms;
use crate::text::join_with;
use crate::text::join_with_exec;
use crate::text::push_char;
use crate::codec::decode_spec;
use crate::codec::parse_markdown_frontmatter;
use vstd::string::StringExecFns;
use vstd::string::StrSliceExecFns;

verus! {

/// How one character of a query is sanitized for use in a file name:
/// alphanumeric characters, dashes and underscores stay; everything else,
/// spaces included, becomes an underscore.
pub open spec fn sanitize_char(c: char) -> char {
    if is_alphanumeric_char(c) || c == '-' || c == '_' {
        c
    } else {
        '_'
    }
}

/// A query sanitized into a file name: each character mapped, then the
/// whole lowercased.
pub open spec fn sanitize_spec(s: Seq<char>) -> Seq<char> {
    lower_of(s.map_values(|c: char| sanitize_char(c)))
}

/// Sanitizes a query into a file name.
pub fn sanitize_filename(input: &str) -> (r: String)
    ensures
        r@ == sanitize_spec(input@),
{
    let len = input.unicode_len();
    let mut mapped = String::new();
    let mut i: usize = 0;
    proof {
        assert(mapped@ =~= input@.subrange(0, 0).map_values(|c: char| sanitize_char(c)));
    }
    while i < len
        invariant
            i <= len,
            len == input@.len(),
            mapped@ == input@.subrange(0, i as int).map_values(|c: char| sanitize_char(c)),
        decreases len - i,
    {
        let c = input.get_char(i);
        let keep = char_is_alphanumeric(c) || c == '-' || c == '_';
        let mc = if keep {
            c
        } else {
            '_'
        };
        push_char(&mut mapped, mc);
        proof {
            assert(mapped@ =~= input@.subrange(0, i + 1).map_values(|c: char| sanitize_char(c)));
        }
        i += 1;
    }
    proof {
        assert(input@.subrange(0, len as int) =~= input@);
    }
    to_lowercase(mapped.as_str())
}

/// The position after the last dash of `s`, or `None` without a dash.
pub open spec fn last_dash(s: Seq<char>) -> Option<int>
    decreases s.len(),
{
    if s.len() == 0 {
        None
    } else if s[s.len() - 1] == '-' {
        Some(s.len() - 1)
    } else {
        last_dash(s.drop_last())
    }
}

/// The readable name derived from a file stem: everything before the last
/// dash (which separates the id suffix), with underscores read as spaces.
pub open spec fn name_from_stem(stem: Seq<char>) -> Seq<char> {
    let base = match last_dash(stem) {
        Some(k) => stem.subrange(0, k),
        None => stem,
    };
    replace_all(base, "_"@, " "@)
}

/// Derives a snippet name from a file: an explicit name wins; otherwise
/// the file stem, with its id suffix dropped and underscores read as
/// spaces; a file without a stem falls back to a fixed name.
pub fn get_name_from_file(stem: Option<&str>, custom_name: &Option<String>) -> (r: String)
    ensures
        r@ == match custom_name {
            Some(c) => c@,
            None => match stem {
                Some(st) => name_from_stem(st@),
                None => "Untitled"@,
            },
        },
{
    match custom_name {
        Some(c) => c.clone(),
        None => {
            match stem {
                Some(st) => {
                    let len = st.unicode_len();
                    let mut b: usize = len;
                    proof {
                        assert(st@.subrange(0, len as int) =~= st@);
                    }
                    while b > 0 && st.get_char(b - 1) != '-'
                        invariant
                            b <= len,
                            len == st@.len(),
                            last_dash(st@) == last_dash(st@.subrange(0, b as int)),
                        decreases b,
                    {
                        proof {
                            let part = st@.subrange(0, b as int);
                            assert(part[part.len() - 1] == st@[b - 1]);
                            assert(part.drop_last() =~= st@.subrange(0, b - 1));
                        }
                        b -= 1;
                    }
                    let ghost part = st@.subrange(0, b as int);
                    proof {
                        assert(st@.subrange(0, len as int) =~= st@);
                        if b > 0 {
                            assert(part[part.len() - 1] == st@[b - 1]);
                            assert(part.drop_last() =~= st@.subrange(0, b - 1));
                            assert(last_dash(part) == Some(b - 1));
                        } else {
                            assert(part =~= Seq::<char>::empty());
                            assert(last_dash(part) is None);
                        }
                    }
                    let base = if b > 0 {
                        st.substring_char(0, b - 1)
                    } else {
                        st.substring_char(0, len)
                    };
                    proof {
                        reveal_strlit("_");
                        match last_dash(st@) {
                            Some(k) => {
                                assert(base@ =~= st@.subrange(0, k));
                            },
                            None => {
                                assert(base@ =~= st@);
                            },
                        }
                    }
                    replace_all_str(base, "_", " ")
                },
                None => {
                    let mut u = String::new();
                    u.append("Untitled");
                    u
                },
            }
        },
    }
}

/// The name generated from the first non-empty line of the content that
/// is not a heading: its first words, at most four, joined by spaces.
pub open spec fn first_content_name(lines: Seq<Seq<char>>) -> Option<Seq<char>>
    decreases lines.len(),
{
    if lines.len() == 0 {
        None
    } else {
        let t = trim_spec(lines[0]);
        if t.len() > 0 && t[0] != '#' {
            let words = split_ws(t);
            Some(join_with(words.take(if words.len() < 4 { words.len() as int } else { 4 }), " "@))
        } else {
            first_content_name(lines.drop_first())
        }
    }
}

/// The name generated from the first markdown heading with text after
/// its marker.
pub open spec fn drop_leading_hashes(s: Seq<char>) -> Seq<char>
    decreases s.len(),
{
    if s.len() > 0 && s[0] == '#' {
        drop_leading_hashes(s.drop_first())
    } else {
        s
    }
}

pub open spec fn first_header_name(lines: Seq<Seq<char>>) -> Option<Seq<char>>
    decreases lines.len(),
{
    if lines.len() == 0 {
        None
    } else if lines[0].len() > 0 && lines[0][0] == '#' && trim_spec(
        drop_leading_hashes(lines[0]),
    ).len() > 0 {
        Some(trim_spec(drop_leading_hashes(lines[0])))
    } else {
        first_header_name(lines.drop_first())
    }
}

/// The name generated from free content: the first words of the first
/// ordinary line, else the first non-empty heading, else nothing.
pub open spec fn generated_name(content: Seq<char>) -> Option<Seq<char>> {
    match first_content_name(lines_of(content)) {
        Some(n) => Some(n),
        None => first_header_name(lines_of(content)),
    }
}

/// Removes the leading `#` markers of a heading line.
fn drop_hashes_exec(s: &str) -> (r: String)
    ensures
        r@ == drop_leading_hashes(s@),
{
    let len = s.unicode_len();
    let mut k: usize = 0;
    proof {
        assert(s@.subrange(0, len as int) =~= s@);
    }
    while k < len && s.get_char(k) == '#'
        invariant
            k <= len,
            len == s@.len(),
            drop_leading_hashes(s@) == drop_leading_hashes(s@.subrange(k as int, len as int)),
        decreases len - k,
    {
        proof {
            let tail = s@.subrange(k as int, len as int);
            assert(tail.drop_first() =~= s@.subrange(k + 1, len as int));
        }
        k += 1;
    }
    proof {
        let tail = s@.subrange(k as int, len as int);
        if k < len {
            assert(tail[0] != '#');
        }
        assert(drop_leading_hashes(tail) == tail);
    }
    String::from_str(s.substring_char(k, len))
}

/// Generates a name from free content, if any line offers one.
pub fn generate_name_from_content(content: &str) -> (r: Option<String>)
    ensures
        match r {
            Some(n) => generated_name(content@) == Some(n@),
            None => generated_name(content@) is None,
        },
{
    let lines = lines_exec(content);
    let n = lines.len();
    let mut i: usize = 0;
    proof {
        assert(lines.deep_view().subrange(0, n as int) =~= lines.deep_view());
    }
    while i < n
        invariant
            i <= n,
            n == lines.len(),
            lines.deep_view() == lines_of(content@),
            first_content_name(lines_of(content@)) == first_content_name(
                lines.deep_view().subrange(i as int, n as int),
            ),
        decreases n - i,
    {
        let ghost tail = lines.deep_view().subrange(i as int, n as int);
        proof {
            assert(tail[0] == lines.deep_view()[i as int]);
            assert(tail.drop_first() =~= lines.deep_view().subrange(i + 1, n as int));
        }
        let t = trim(lines[i].as_str());
        let tlen = t.as_str().unicode_len();
        if tlen > 0 && t.as_str().get_char(0) != '#' {
            let words = split_whitespace_terms(t.as_str());
            let take_n = if words.len() < 4 {
                words.len()
            } else {
                4
            };
            let mut taken: Vec<String> = Vec::new();
            let mut k: usize = 0;
            proof {
                assert(taken.deep_view() =~= words.deep_view().take(0));
            }
            while k < take_n
                invariant
                    k <= take_n,
                    take_n <= words.len(),
                    taken.deep_view() == words.deep_view().take(k as int),
                decreases take_n - k,
            {
                let ghost old_taken = taken.deep_view();
                taken.push(words[k].clone());
                proof {
                    assert(taken.deep_view() =~~= words.deep_view().take(k + 1));
                }
                k += 1;
            }
            let joined = join_with_exec(&taken, " ");
            proof {
                assert(first_content_name(tail) == Some(joined@));
            }
            return Some(joined);
        }
        i += 1;
    }
    proof {
        assert(lines.deep_view().subrange(n as int, n as int) =~= Seq::<Seq<char>>::empty());
        assert(first_content_name(lines_of(content@)) is None);
    }
    let mut i: usize = 0;
    while i < n
        invariant
            i <= n,
            n == lines.len(),
            lines.deep_view() == lines_of(content@),
            first_header_name(lines_of(content@)) == first_header_name(
                lines.deep_view().subrange(i as int, n as int),
            ),
        decreases n - i,
    {
        let ghost tail = lines.deep_view().subrange(i as int, n as int);
        proof {
            assert(tail[0] == lines.deep_view()[i as int]);
            assert(tail.drop_first() =~= lines.deep_view().subrange(i + 1, n as int));
        }
        let line = &lines[i];
        if line.as_str().unicode_len() > 0 && line.as_str().get_char(0) == '#' {
            let header = drop_hashes_exec(line.as_str());
            let ht = trim(header.as_str());
            if ht.as_str().unicode_len() > 0 {
                proof {
                    assert(first_header_name(tail) == Some(ht@));
                }
                return Some(ht);
            }
        }
        i += 1;
    }
    proof {
        assert(lines.deep_view().subrange(n as int, n as int) =~= Seq::<Seq<char>>::empty());
        assert(first_header_name(lines_of(content@)) is None);
    }
    None
}

/// A fresh snippet published from pasted content. The caller supplies the
/// generated id and creation timestamp, and the name to fall back to when
/// none can be generated from the content.
pub fn make_snippet(
    content: String,
    custom_name: Option<String>,
    id: String,
    created_at: String,
    fallback_name: String,
) -> (r: Snippet)
    ensures
        r@.id == id@,
        r@.content == content@,
        r@.created_at == created_at@,
        r@.description is None,
        r@.name == match custom_name {
            Some(n) => n@,
            None => match generated_name(content@) {
                Some(g) => g,
                None => fallback_name@,
            },
        },
{
    let name = match custom_name {
        Some(n) => n,
        None => {
            match generate_name_from_content(content.as_str()) {
                Some(g) => g,
                None => fallback_name,
            }
        },
    };
    Snippet { id, name, content, created_at, description: None }
}

/// The snippet re-published from a previously extracted local file:
/// parseable frontmatter keeps its id, timestamp, content and
/// description (the name may be overridden); anything else becomes a
/// fresh snippet whose name derives from the file name.
pub fn snippet_from_document(
    content: &String,
    stem: Option<&str>,
    custom_name: Option<String>,
    fresh_id: String,
    fresh_created_at: String,
) -> (r: Snippet)
    ensures
        match decode_spec(content@) {
            Some(v) => {
                &&& r@.id == v.id
                &&& r@.created_at == v.created_at
                &&& r@.content == v.content
                &&& r@.description == v.description
                &&& r@.name == match custom_name {
                    Some(n) => n@,
                    None => v.name,
                }
            },
            None => {
                &&& r@.id == fresh_id@
                &&& r@.created_at == fresh_created_at@
                &&& r@.content == content@
                &&& r@.description is None
                &&& r@.name == match custom_name {
                    Some(n) => n@,
                    None => match stem {
                        Some(st) => name_from_stem(st@),
                        None => "Untitled"@,
                    },
                }
            },
        },
{
    match parse_markdown_frontmatter(content.as_str()) {
        Ok(existing) => {
            let name = match custom_name {
                Some(n) => n,
                None => existing.name,
            };
            Snippet {
                id: existing.id,
                name,
                content: existing.content,
                created_at: existing.created_at,
                description: existing.description,
            }
        },
        Err(_) => {
            let name = get_name_from_file(stem, &custom_name);
            Snippet {
                id: fresh_id,
                name,
                content: content.clone(),
                created_at: fresh_created_at,
                description: None,
            }
        },
    }
}

/// The file name under which a snippet is published: its lowercased,
/// dash-joined name and the first eight characters of its id.
pub fn publish_filename(name: &str, id: &str) -> (r: String)
    requires
        id@.len() >= 8,
    ensures
        r@ == lower_of(replace_all(name@, " "@, "-"@)) + "-"@ + id@.subrange(0, 8) + ".md"@,
{
    proof {
        reveal_strlit(" ");
    }
    let dashed = replace_all_str(name, " ", "-");
    let lowered = to_lowercase(dashed.as_str());
    let mut out = lowered;
    out.append("-");
    out.append(id.substring_char(0, 8));
    out.append(".md");
    proof {
        assert(out@ =~= lower_of(replace_all(name@, " "@, "-"@)) + "-"@ + id@.subrange(0, 8)
            + ".md"@);
    }
    out
}

/// The file name under which an extracted snippet is saved locally: the
/// sanitized query and the first eight characters of the generated id.
pub fn extract_filename(query: &str, id: &str) -> (r: String)
    requires
        id@.len() >= 8,
    ensures
        r@ == sanitize_spec(query@) + "-"@ + id@.subrange(0, 8) + ".md"@,
{
    let mut out = sanitize_filename(query);
    out.append("-");
    out.append(id.substring_char(0, 8));
    out.append(".md");
    proof {
        assert(out@ =~= sanitize_spec(query@) + "-"@ + id@.subrange(0, 8) + ".md"@);
    }
    out
}

/// The document saved for an extracted snippet: a frontmatter block that
/// also records the extraction source and the query, followed by the
/// trimmed extracted text.
pub fn build_extract_document(query: &str, extracted: &str, id: &str, created_at: &str) -> (r:
    String)
    ensures
        r@ == "---\nid: "@ + id@ + "\nname: "@ + query@ + "\ncreated_at: "@ + created_at@
            + "\ndescription: Extracted from the user notes file\nsource: extract\nquery: "@
            + query@ + "\n---\n\n"@ + trim_spec(extracted@),
{
    let body = trim(extracted);
    let mut out = String::new();
    out.append("---\nid: ");
    out.append(id);
    out.append("\nname: ");
    out.append(query);
    out.append("\ncreated_at: ");
    out.append(created_at);
    out.append("\ndescription: Extracted from the user notes file\nsource: extract\nquery: ");
    out.append(query);
    out.append("\n---\n\n");
    out.append(body.as_str());
    proof {
        assert(out@ =~= "---\nid: "@ + id@ + "\nname: "@ + query@ + "\ncreated_at: "@ + created_at@
            + "\ndescription: Extracted from the user notes file\nsource: extract\nquery: "@
            + query@ + "\n---\n\n"@ + trim_spec(extracted@));
    }
    out
}

/// The label under which a snippet is reported to the user: its name and
/// the first eight characters of its id.
pub fn snippet_display_label(snippet: &Snippet) -> (r: String)
    requires
        snippet.id@.len() >= 8,
    ensures
        r@ == "'"@ + snippet@.name + "' (ID: "@ + snippet@.id.subrange(0, 8) + ")"@,
{
    let mut out = String::new();
    out.append("'");
    out.append(snippet.name.as_str());
    out.append("' (ID: ");
    out.append(snippet.id.as_str().substring_char(0, 8));
    out.append(")");
    proof {
        assert(out@ =~= "'"@ + snippet@.name + "' (ID: "@ + snippet@.id.subrange(0, 8) + ")"@);
    }
    out
}

} // verus!

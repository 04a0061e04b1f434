//! Scanning a repository's snippet files: which directory entries count
//! as snippets, decoding each with graceful degradation, the listing
//! order (newest first), and the listed form of a creation timestamp.
use vstd::prelude::*;

use crate::snippet::Snippet;
use crate::snippet::SnippetView;
use crate::codec::decode_spec;
use crate::codec::parse_markdown_frontmatter;
use crate::text::contains_seq;
use crate::text::lower_of;
use crate::text::to_lowercase;
use crate::text::str_contains;
use crate::text::replace_all;
use crate::text::replace_all_str;
use crate::text::lines_of;
use crate::text::lines_exec;
use crate::text::join_with;
use crate::text::join_with_exec;
use crate::text::lex_le;
use crate::text::string_le;
use crate::text::lemma_lex_le_total;
use crate::text::lemma_lex_le_trans;
use vstd::multiset::Multiset;
use vstd::string::StringExecFns;
use vstd::string::StrSliceExecFns;

verus! {

/// A name ending in the markdown suffix.
pub open spec fn is_markdown_name(name: Seq<char>) -> bool {
    name.len() >= 3 && name.subrange(name.len() - 3, name.len() as int) == ".md"@
}

/// A name that signals documentation rather than a snippet.
pub open spec fn mentions_readme(name: Seq<char>) -> bool {
    contains_seq(lower_of(name), "readme"@)
}

/// A directory entry the resolver treats as a candidate snippet file:
/// markdown, and not documentation.
pub open spec fn is_candidate_filename(name: Seq<char>) -> bool {
    is_markdown_name(name) && !mentions_readme(name)
}

/// Whether a directory entry is a candidate snippet file.
pub fn check_candidate_filename(name: &str) -> (r: bool)
    ensures
        r == is_candidate_filename(name@),
{
    let len = name.unicode_len();
    if len < 3 {
        return false;
    }
    let suffix = name.substring_char(len - 3, len);
    if !crate::text::str_eq(suffix, ".md") {
        return false;
    }
    let lowered = to_lowercase(name);
    !str_contains(lowered.as_str(), "readme")
}

/// The candidate snippet files among the directory entries, in order.
pub fn filter_candidate_filenames(names: &Vec<String>) -> (r: Vec<String>)
    ensures
        r.deep_view() == names.deep_view().filter(|n: Seq<char>| is_candidate_filename(n)),
{
    broadcast use vstd::seq_lib::group_seq_properties;

    let n = names.len();
    let mut r: Vec<String> = Vec::new();
    let mut i: usize = 0;
    proof {
        assert(names.deep_view().take(0) =~= Seq::<Seq<char>>::empty());
        assert(r.deep_view() =~~= names.deep_view().take(0).filter(
            |n: Seq<char>| is_candidate_filename(n),
        ));
    }
    while i < n
        invariant
            i <= n,
            n == names.len(),
            r.deep_view() == names.deep_view().take(i as int).filter(
                |n: Seq<char>| is_candidate_filename(n),
            ),
        decreases n - i,
    {
        let ghost old_r = r.deep_view();
        let ghost pred = |n: Seq<char>| is_candidate_filename(n);
        if check_candidate_filename(names[i].as_str()) {
            r.push(names[i].clone());
        }
        proof {
            reveal_with_fuel(Seq::<Seq<char>>::filter, 2);
            let nv = names.deep_view();
            let prefix = nv.take(i as int);
            let sp = nv.take(i + 1);
            assert(sp =~~= prefix.push(nv[i as int]));
            assert(sp.drop_last() =~~= prefix);
            assert(sp.last() == nv[i as int]);
            if pred(nv[i as int]) {
                assert(sp.filter(pred) == prefix.filter(pred).push(sp.last()));
                assert(r.deep_view() =~~= old_r.push(nv[i as int]));
            } else {
                assert(sp.filter(pred) == prefix.filter(pred));
            }
        }
        i += 1;
    }
    proof {
        assert(names.deep_view().take(n as int) =~= names.deep_view());
    }
    r
}

/// The number of candidate snippet files among the directory entries.
pub fn count_snippet_files(names: &Vec<String>) -> (r: usize)
    ensures
        r == names.deep_view().filter(|n: Seq<char>| is_candidate_filename(n)).len(),
{
    let filtered = filter_candidate_filenames(names);
    filtered.len()
}

/// The stand-in record for a file without parseable frontmatter: raw
/// content, a name read off the file name, and unknown metadata.
pub fn raw_candidate(filename: &str, content: String) -> (r: Snippet)
    ensures
        r@.id == "unknown"@,
        r@.name == replace_all(replace_all(filename@, ".md"@, Seq::<char>::empty()), "_"@, " "@),
        r@.content == content@,
        r@.created_at == "unknown"@,
        r@.description is None,
{
    proof {
        reveal_strlit(".md");
        reveal_strlit("_");
        reveal_strlit("");
    }
    let without_ext = replace_all_str(filename, ".md", "");
    let name = replace_all_str(without_ext.as_str(), "_", " ");
    let mut id = String::new();
    id.append("unknown");
    let mut created = String::new();
    created.append("unknown");
    proof {
        assert(""@ =~= Seq::<char>::empty());
    }
    Snippet { id, name, content, created_at: created, description: None }
}

/// The record a listed file stands for: its decoded snippet, or the
/// stand-in for unparseable content.
pub fn decode_candidate(filename: &str, content: String) -> (r: Snippet)
    ensures
        match decode_spec(content@) {
            Some(v) => r@ == v,
            None => {
                &&& r@.id == "unknown"@
                &&& r@.name == replace_all(
                    replace_all(filename@, ".md"@, Seq::<char>::empty()),
                    "_"@,
                    " "@,
                )
                &&& r@.content == content@
                &&& r@.created_at == "unknown"@
                &&& r@.description is None
            },
        },
{
    match parse_markdown_frontmatter(content.as_str()) {
        Ok(s) => s,
        Err(_) => raw_candidate(filename, content),
    }
}

/// The first lines of a text, at most `n`, joined back together.
pub fn first_lines(s: &str, n: usize) -> (r: String)
    ensures
        ({
            let l = lines_of(s@);
            r@ == join_with(
                l.take(
                    if l.len() < n {
                        l.len() as int
                    } else {
                        n as int
                    },
                ),
                "\n"@,
            )
        }),
{
    let lines = lines_exec(s);
    let total = lines.len();
    let take_n = if total < n {
        total
    } else {
        n
    };
    let mut taken: Vec<String> = Vec::new();
    let mut k: usize = 0;
    proof {
        assert(taken.deep_view() =~= lines.deep_view().take(0));
    }
    while k < take_n
        invariant
            k <= take_n,
            take_n <= lines.len(),
            taken.deep_view() == lines.deep_view().take(k as int),
        decreases take_n - k,
    {
        taken.push(lines[k].clone());
        proof {
            assert(taken.deep_view() =~~= lines.deep_view().take(k + 1));
        }
        k += 1;
    }
    join_with_exec(&taken, "\n")
}

/// The preview of a candidate file as enumerated for the oracle: a
/// decoded snippet shows its name and first content lines; raw content
/// shows its first lines.
pub fn candidate_preview(content: &String) -> (r: String)
    ensures
        match decode_spec(content@) {
            Some(v) => ({
                let l = lines_of(v.content);
                r@ == "Name: "@ + v.name + "\nContent preview:\n"@ + join_with(
                    l.take(
                        if l.len() < 5 {
                            l.len() as int
                        } else {
                            5
                        },
                    ),
                    "\n"@,
                )
            }),
            None => ({
                let l = lines_of(content@);
                r@ == join_with(
                    l.take(
                        if l.len() < 10 {
                            l.len() as int
                        } else {
                            10
                        },
                    ),
                    "\n"@,
                )
            }),
        },
{
    match parse_markdown_frontmatter(content.as_str()) {
        Ok(s) => {
            let body = first_lines(s.content.as_str(), 5);
            let mut out = String::new();
            out.append("Name: ");
            out.append(s.name.as_str());
            out.append("\nContent preview:\n");
            out.append(body.as_str());
            proof {
                let v = decode_spec(content@)->Some_0;
                let l = lines_of(v.content);
                assert(out@ =~= "Name: "@ + v.name + "\nContent preview:\n"@ + join_with(
                    l.take(
                        if l.len() < 5 {
                            l.len() as int
                        } else {
                            5
                        },
                    ),
                    "\n"@,
                ));
            }
            out
        },
        Err(_) => first_lines(content.as_str(), 10),
    }
}

/// A snippet list ordered newest-first by creation timestamp.
pub open spec fn sorted_newest_first(s: Seq<SnippetView>) -> bool {
    forall|i: int, j: int|
        0 <= i < j < s.len() ==> lex_le(#[trigger] s[j].created_at, #[trigger] s[i].created_at)
}

/// Inserting at any position adds the element to the multiset.
proof fn lemma_insert_to_multiset(s: Seq<SnippetView>, i: int, x: SnippetView)
    requires
        0 <= i <= s.len(),
    ensures
        s.insert(i, x).to_multiset() =~= s.to_multiset().insert(x),
{
    broadcast use vstd::seq_lib::group_to_multiset_ensures;
    broadcast use vstd::multiset::group_multiset_axioms;

    assert(s.insert(i, x) =~= s.take(i) + (seq![x] + s.skip(i)));
    vstd::seq_lib::lemma_multiset_commutative(s.take(i), seq![x] + s.skip(i));
    vstd::seq_lib::lemma_multiset_commutative(seq![x], s.skip(i));
    assert(s =~= s.take(i) + s.skip(i));
    vstd::seq_lib::lemma_multiset_commutative(s.take(i), s.skip(i));
    assert(seq![x].to_multiset() =~= Multiset::<SnippetView>::empty().insert(x)) by {
        assert(Seq::<SnippetView>::empty().push(x) =~= seq![x]);
        assert(Seq::<SnippetView>::empty().to_multiset() =~= Multiset::<SnippetView>::empty()) by {
            Seq::<SnippetView>::empty().to_multiset_ensures();
            vstd::multiset::lemma_multiset_empty_len(
                Seq::<SnippetView>::empty().to_multiset(),
            );
        }
    }
}

/// Inserts a snippet into a list sorted newest-first, keeping the order.
fn insert_sorted_desc(v: &mut Vec<Snippet>, x: Snippet)
    requires
        sorted_newest_first(old(v).deep_view()),
    ensures
        sorted_newest_first(final(v).deep_view()),
        final(v).deep_view().to_multiset() =~= old(v).deep_view().to_multiset().insert(x@),
{
    let n = v.len();
    let mut p: usize = 0;
    while p < n && !string_le(v[p].created_at.as_str(), x.created_at.as_str())
        invariant
            p <= n,
            n == v.len(),
            forall|j: int|
                0 <= j < p ==> !lex_le(#[trigger] v.deep_view()[j].created_at, x@.created_at),
        decreases n - p,
    {
        p += 1;
    }
    let ghost old_views = v.deep_view();
    let ghost pos = p as int;
    v.insert(p, x);
    proof {
        let new_views = v.deep_view();
        assert(new_views =~= old_views.insert(pos, x@));
        assert forall|a: int, b: int|
            0 <= a < b < new_views.len() implies lex_le(
            #[trigger] new_views[b].created_at,
            #[trigger] new_views[a].created_at,
        ) by {
            let va = new_views[a];
            let vb = new_views[b];
            if a == pos {
                // x before an old element at index b - 1 >= pos
                let ob = old_views[b - 1];
                if pos < old_views.len() {
                    assert(lex_le(old_views[pos].created_at, x@.created_at));
                    if b - 1 > pos {
                        lemma_lex_le_trans(
                            ob.created_at,
                            old_views[pos].created_at,
                            x@.created_at,
                        );
                    }
                }
            } else if b == pos {
                // an old element at index a < pos before x
                let oa = old_views[a];
                lemma_lex_le_total(oa.created_at, x@.created_at);
                assert(!lex_le(oa.created_at, x@.created_at));
            } else {
                let ia = if a < pos {
                    a
                } else {
                    a - 1
                };
                let ib = if b < pos {
                    b
                } else {
                    b - 1
                };
                if a < pos && b > pos {
                    assert(va == old_views[ia] && vb == old_views[ib]);
                }
                assert(lex_le(old_views[ib].created_at, old_views[ia].created_at));
            }
        }
        lemma_insert_to_multiset(old_views, pos, x@);
    }
}

/// Orders the snippets newest-first by creation timestamp, as the listing
/// and the matcher's candidate enumeration show them.
pub fn sort_snippets_by_created_desc(snippets: Vec<Snippet>) -> (r: Vec<Snippet>)
    ensures
        sorted_newest_first(r.deep_view()),
        r.deep_view().to_multiset() =~= snippets.deep_view().to_multiset(),
{
    broadcast use vstd::seq_lib::group_to_multiset_ensures;

    let ghost all = snippets.deep_view();
    let mut rest = snippets;
    let mut out: Vec<Snippet> = Vec::new();
    proof {
        assert(out.deep_view() =~= Seq::<SnippetView>::empty());
        Seq::<SnippetView>::empty().to_multiset_ensures();
        vstd::multiset::lemma_multiset_empty_len(Seq::<SnippetView>::empty().to_multiset());
        assert(out.deep_view().to_multiset().add(rest.deep_view().to_multiset()) =~= all.to_multiset());
    }
    while rest.len() > 0
        invariant
            sorted_newest_first(out.deep_view()),
            out.deep_view().to_multiset().add(rest.deep_view().to_multiset()) =~= all.to_multiset(),
        decreases rest.len(),
    {
        let ghost old_rest = rest.deep_view();
        let ghost old_out = out.deep_view();
        let x = match rest.pop() {
            Some(x) => x,
            None => {
                proof {
                    assert(false);
                }
                unreached()
            },
        };
        proof {
            assert(rest.deep_view() =~= old_rest.drop_last());
            assert(old_rest =~= rest.deep_view().push(x@));
            assert(old_rest.to_multiset() =~= rest.deep_view().to_multiset().insert(x@));
        }
        insert_sorted_desc(&mut out, x);
        proof {
            broadcast use vstd::multiset::group_multiset_axioms;

            assert(out.deep_view().to_multiset() =~= old_out.to_multiset().insert(x@));
            assert(out.deep_view().to_multiset().add(rest.deep_view().to_multiset())
                =~= all.to_multiset());
        }
    }
    proof {
        broadcast use vstd::multiset::group_multiset_axioms;

        assert(rest.deep_view() =~= Seq::<SnippetView>::empty());
        Seq::<SnippetView>::empty().to_multiset_ensures();
        vstd::multiset::lemma_multiset_empty_len(Seq::<SnippetView>::empty().to_multiset());
        assert(out.deep_view().to_multiset() =~= all.to_multiset());
    }
    out
}

/// The listed form of a creation timestamp: a parseable timestamp is
/// shown in the fixed display layout; anything else — the unknown marker
/// included — is shown as it stands.
pub uninterp spec fn timestamp_display_of(s: Seq<char>) -> Option<Seq<char>>;

/// Relies on `chrono::DateTime::parse_from_rfc3339` and `format` with a
/// fixed layout: the rendering depends on the timestamp text alone, and
/// fails exactly when the text is not an RFC 3339 timestamp.
#[verifier::external_body]
fn format_timestamp(s: &str) -> (r: Option<String>)
    ensures
        match r {
            Some(t) => timestamp_display_of(s@) == Some(t@),
            None => timestamp_display_of(s@) is None,
        },
{
    match chrono::DateTime::parse_from_rfc3339(s) {
        Ok(dt) => Some(dt.format("%Y-%m-%d %H:%M").to_string()),
        Err(_) => None,
    }
}

/// Renders a creation timestamp for the listing.
pub fn created_at_display(created_at: &str) -> (r: String)
    ensures
        r@ == match timestamp_display_of(created_at@) {
            Some(t) => if created_at@ == "unknown"@ {
                created_at@
            } else {
                t
            },
            None => created_at@,
        },
{
    if crate::text::str_eq(created_at, "unknown") {
        return String::from_str(created_at);
    }
    match format_timestamp(created_at) {
        Some(t) => t,
        None => String::from_str(created_at),
    }
}

} // verus!

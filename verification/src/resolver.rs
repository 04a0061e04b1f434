//! The oracle-assisted resolver's decision logic. Resolving a query
//! against a candidate file list proceeds in two steps: a cheap,
//! deterministic pre-filter (filenames containing the query,
//! case-insensitively), and — when the pre-filter is ambiguous or empty —
//! an escalation to an external matching oracle whose answer is validated
//! against the candidate list. The oracle runs outside this crate; its
//! outcome is handed in, and every failure degrades gracefully: a sole
//! pre-filter match wins, several remaining matches are an explicit
//! ambiguity, none is an explicit miss. The resolver never mutates state.
use vstd::prelude::*;

use crate::snippet::Snippet;
use crate::text::contains_seq;
use crate::text::lower_of;
use crate::text::to_lowercase;
use crate::text::str_contains;
use crate::text::str_eq;
use crate::text::str_starts_with;
use crate::matcher::is_best_match;
use crate::matcher::snippet_score;
use crate::matcher::fuzzy_match;
use vstd::string::StringExecFns;
use vstd::string::StrSliceExecFns;

verus! {

/// How the oracle invocation went: the tool was not runnable at all, it
/// ran and failed, or it produced an answer on standard output.
pub enum OracleOutcome {
    Unavailable,
    Failed,
    Answer(String),
}

/// The outcome of resolving a query against a candidate list.
pub enum Resolution {
    /// Exactly one candidate was determined, by index.
    Chosen(usize),
    /// The oracle answered with the distinguished no-match token.
    NoCandidate,
    /// The oracle was unusable and several pre-filter matches remain;
    /// the caller should list them and ask for a more specific query.
    Ambiguous(Vec<usize>),
    /// The oracle was unusable and no pre-filter match exists.
    NotFound,
}

/// The token by which the oracle reports that no candidate fits.
pub open spec fn no_match_token() -> Seq<char> {
    "NONE"@
}

/// A filename matches the pre-filter when it contains the query,
/// case-insensitively.
pub open spec fn prefilter_hit(filename: Seq<char>, query: Seq<char>) -> bool {
    contains_seq(lower_of(filename), lower_of(query))
}

/// The indices of the candidate filenames that contain the query,
/// case-insensitively, in candidate order.
pub fn prefilter_candidates(filenames: &Vec<String>, query: &str) -> (r: Vec<usize>)
    ensures
        forall|k: int|
            0 <= k < r.len() ==> r@[k] < filenames.len() && prefilter_hit(
                filenames.deep_view()[r@[k] as int],
                query@,
            ),
        forall|k1: int, k2: int| 0 <= k1 < k2 < r.len() ==> r@[k1] < r@[k2],
        forall|j: int|
            0 <= j < filenames.len() && prefilter_hit(filenames.deep_view()[j], query@)
                ==> r@.contains(j as usize),
{
    broadcast use vstd::seq_lib::lemma_seq_contains_after_push;

    let query_lower = to_lowercase(query);
    let n = filenames.len();
    let mut r: Vec<usize> = Vec::new();
    let mut j: usize = 0;
    while j < n
        invariant
            j <= n,
            n == filenames.len(),
            query_lower@ == lower_of(query@),
            forall|k: int|
                0 <= k < r.len() ==> r@[k] < j && prefilter_hit(
                    filenames.deep_view()[r@[k] as int],
                    query@,
                ),
            forall|k1: int, k2: int| 0 <= k1 < k2 < r.len() ==> r@[k1] < r@[k2],
            forall|i: int|
                0 <= i < j && prefilter_hit(filenames.deep_view()[i], query@) ==> r@.contains(
                    i as usize,
                ),
        decreases n - j,
    {
        let name_lower = to_lowercase(filenames[j].as_str());
        if str_contains(name_lower.as_str(), query_lower.as_str()) {
            r.push(j);
        }
        j += 1;
    }
    r
}

/// The first step of resolution: a pre-filter that narrowed the candidates
/// to exactly one resolves immediately, without consulting the oracle;
/// anything else escalates.
pub enum PreStep {
    Resolved(usize),
    AskOracle,
}

/// Decides whether the pre-filter alone settles the resolution.
pub fn resolve_prefilter(prefilter: &Vec<usize>) -> (r: PreStep)
    ensures
        prefilter.len() == 1 ==> r == PreStep::Resolved(prefilter@[0]),
        prefilter.len() != 1 ==> r == PreStep::AskOracle,
{
    if prefilter.len() == 1 {
        PreStep::Resolved(prefilter[0])
    } else {
        PreStep::AskOracle
    }
}

/// Where resolution lands when the oracle is unusable: the sole remaining
/// pre-filter match, an explicit ambiguity listing the remaining matches,
/// or an explicit miss.
pub open spec fn fallback_resolution(r: Resolution, prefilter: Seq<usize>) -> bool {
    if prefilter.len() == 1 {
        r == Resolution::Chosen(prefilter[0])
    } else if prefilter.len() > 1 {
        match r {
            Resolution::Ambiguous(v) => v@ == prefilter,
            _ => false,
        }
    } else {
        r == Resolution::NotFound
    }
}

/// Settles the resolution once the oracle's outcome is known: the
/// distinguished token means no candidate; an answer naming a candidate
/// picks the earliest candidate with that name; any failure, and any
/// answer naming no candidate, falls back to the pre-filter.
pub fn resolve_with_oracle(
    candidates: &Vec<String>,
    prefilter: &Vec<usize>,
    outcome: &OracleOutcome,
) -> (r: Resolution)
    ensures
        match outcome {
            OracleOutcome::Answer(a) => {
                if a@ == no_match_token() {
                    r == Resolution::NoCandidate
                } else if exists|j: int|
                    0 <= j < candidates.len() && candidates.deep_view()[j] == a@ {
                    match r {
                        Resolution::Chosen(i) => {
                            &&& i < candidates.len()
                            &&& candidates.deep_view()[i as int] == a@
                            &&& forall|j: int| 0 <= j < i ==> candidates.deep_view()[j] != a@
                        },
                        _ => false,
                    }
                } else {
                    fallback_resolution(r, prefilter@)
                }
            },
            _ => fallback_resolution(r, prefilter@),
        },
{
    match outcome {
        OracleOutcome::Answer(a) => {
            if str_eq(a.as_str(), "NONE") {
                return Resolution::NoCandidate;
            }
            let n = candidates.len();
            let mut j: usize = 0;
            while j < n
                invariant
                    j <= n,
                    n == candidates.len(),
                    forall|k: int| 0 <= k < j ==> candidates.deep_view()[k] != a@,
                decreases n - j,
            {
                if str_eq(candidates[j].as_str(), a.as_str()) {
                    return Resolution::Chosen(j);
                }
                j += 1;
            }
            fallback_exec(prefilter)
        },
        _ => fallback_exec(prefilter),
    }
}

/// The pre-filter fallback used when the oracle is unusable.
fn fallback_exec(prefilter: &Vec<usize>) -> (r: Resolution)
    ensures
        fallback_resolution(r, prefilter@),
{
    if prefilter.len() == 1 {
        Resolution::Chosen(prefilter[0])
    } else if prefilter.len() > 1 {
        let mut v: Vec<usize> = Vec::new();
        let n = prefilter.len();
        let mut j: usize = 0;
        while j < n
            invariant
                j <= n,
                n == prefilter.len(),
                v@ == prefilter@.take(j as int),
            decreases n - j,
        {
            v.push(prefilter[j]);
            proof {
                assert(v@ =~= prefilter@.take(j + 1));
            }
            j += 1;
        }
        proof {
            assert(prefilter@.take(n as int) =~= prefilter@);
        }
        Resolution::Ambiguous(v)
    } else {
        Resolution::NotFound
    }
}

/// Whether a snippet id matches the oracle's answer for the snippet
/// matcher: the id begins with the answer, or the answer quotes the id.
pub open spec fn id_matches(id: Seq<char>, response: Seq<char>) -> bool {
    crate::text::starts_with_seq(id, response) || contains_seq(response, id)
}

/// Interprets the oracle's answer for the snippet matcher: the
/// distinguished token means no candidate, an id match picks the earliest
/// such snippet, and anything else falls back to the deterministic scorer.
pub fn select_by_id_response(snippets: &Vec<Snippet>, response: &str, query: &str) -> (r: Option<
    usize,
>)
    ensures
        ({
            let views = snippets.deep_view();
            if response@ == no_match_token() {
                r is None
            } else if exists|j: int| 0 <= j < views.len() && id_matches(views[j].id, response@) {
                match r {
                    Some(i) => {
                        &&& i < views.len()
                        &&& id_matches(views[i as int].id, response@)
                        &&& forall|j: int| 0 <= j < i ==> !id_matches(views[j].id, response@)
                    },
                    None => false,
                }
            } else {
                match r {
                    Some(i) => is_best_match(views, query@, i as int),
                    None => forall|j: int|
                        0 <= j < views.len() ==> snippet_score(views[j], query@) == 0,
                }
            }
        }),
{
    if str_eq(response, "NONE") {
        return None;
    }
    let n = snippets.len();
    let mut j: usize = 0;
    while j < n
        invariant
            j <= n,
            n == snippets.len(),
            forall|k: int| 0 <= k < j ==> !id_matches(snippets.deep_view()[k].id, response@),
        decreases n - j,
    {
        let id = &snippets[j].id;
        if str_starts_with(id.as_str(), response) || str_contains(response, id.as_str()) {
            return Some(j);
        }
        j += 1;
    }
    fuzzy_match(snippets, query)
}

/// The instruction handed to the oracle: name exactly one of the listed
/// files, or nothing else.
pub fn build_oracle_prompt(query: &str, file_list: &str) -> (r: String)
    ensures
        r@ == "Based on the query '"@ + query@
            + "', which file from the list below is the best match? Just respond with the exact filename (including extension), nothing else.\n\n"@
            + file_list@,
{
    let mut out = String::new();
    out.append("Based on the query '");
    out.append(query);
    out.append(
        "', which file from the list below is the best match? Just respond with the exact filename (including extension), nothing else.\n\n",
    );
    out.append(file_list);
    proof {
        assert(out@ =~= "Based on the query '"@ + query@
            + "', which file from the list below is the best match? Just respond with the exact filename (including extension), nothing else.\n\n"@
            + file_list@);
    }
    out
}

/// The candidate list as enumerated in the oracle prompt: each filename
/// with a short preview of its content.
pub open spec fn listing_spec(names: Seq<Seq<char>>, previews: Seq<Seq<char>>) -> Seq<char>
    decreases names.len(),
{
    if names.len() == 0 || previews.len() == 0 {
        Seq::empty()
    } else {
        "File: "@ + names[0] + "\nPreview:\n"@ + previews[0] + "\n\n---\n\n"@ + listing_spec(
            names.drop_first(),
            previews.drop_first(),
        )
    }
}

/// The candidate list as enumerated for the oracle when resolving inside
/// a repository: each filename with the preview block already rendered.
pub open spec fn candidate_listing_spec(names: Seq<Seq<char>>, previews: Seq<Seq<char>>) -> Seq<
    char,
>
    decreases names.len(),
{
    if names.len() == 0 || previews.len() == 0 {
        Seq::empty()
    } else {
        "File: "@ + names[0] + "\n"@ + previews[0] + "\n\n---\n\n"@ + candidate_listing_spec(
            names.drop_first(),
            previews.drop_first(),
        )
    }
}

/// Renders the candidate list for the repository resolver's oracle prompt.
pub fn build_candidate_listing(names: &Vec<String>, previews: &Vec<String>) -> (r: String)
    requires
        names.len() == previews.len(),
    ensures
        r@ == candidate_listing_spec(names.deep_view(), previews.deep_view()),
{
    let n = names.len();
    let mut out = String::new();
    let mut i: usize = 0;
    proof {
        assert(names.deep_view().subrange(0, n as int) =~= names.deep_view());
        assert(previews.deep_view().subrange(0, n as int) =~= previews.deep_view());
    }
    while i < n
        invariant
            i <= n,
            n == names.len() == previews.len(),
            out@ + candidate_listing_spec(
                names.deep_view().subrange(i as int, n as int),
                previews.deep_view().subrange(i as int, n as int),
            ) == candidate_listing_spec(names.deep_view(), previews.deep_view()),
        decreases n - i,
    {
        let ghost nt = names.deep_view().subrange(i as int, n as int);
        let ghost pt = previews.deep_view().subrange(i as int, n as int);
        proof {
            assert(nt[0] == names.deep_view()[i as int]);
            assert(pt[0] == previews.deep_view()[i as int]);
            assert(nt.drop_first() =~= names.deep_view().subrange(i + 1, n as int));
            assert(pt.drop_first() =~= previews.deep_view().subrange(i + 1, n as int));
        }
        let ghost old_out = out@;
        out.append("File: ");
        out.append(names[i].as_str());
        out.append("\n");
        out.append(previews[i].as_str());
        out.append("\n\n---\n\n");
        proof {
            assert(out@ =~= old_out + ("File: "@ + nt[0] + "\n"@ + pt[0] + "\n\n---\n\n"@));
            assert(out@ + candidate_listing_spec(nt.drop_first(), pt.drop_first()) =~= old_out
                + candidate_listing_spec(nt, pt));
        }
        i += 1;
    }
    proof {
        assert(names.deep_view().subrange(n as int, n as int) =~= Seq::<Seq<char>>::empty());
        assert(previews.deep_view().subrange(n as int, n as int) =~= Seq::<Seq<char>>::empty());
        assert(out@ + Seq::<char>::empty() =~= out@);
    }
    out
}

/// Renders the candidate list for the oracle prompt.
pub fn build_file_listing(names: &Vec<String>, previews: &Vec<String>) -> (r: String)
    requires
        names.len() == previews.len(),
    ensures
        r@ == listing_spec(names.deep_view(), previews.deep_view()),
{
    let n = names.len();
    let mut out = String::new();
    let mut i: usize = 0;
    proof {
        assert(names.deep_view().subrange(0, n as int) =~= names.deep_view());
        assert(previews.deep_view().subrange(0, n as int) =~= previews.deep_view());
    }
    while i < n
        invariant
            i <= n,
            n == names.len() == previews.len(),
            out@ + listing_spec(
                names.deep_view().subrange(i as int, n as int),
                previews.deep_view().subrange(i as int, n as int),
            ) == listing_spec(names.deep_view(), previews.deep_view()),
        decreases n - i,
    {
        let ghost nt = names.deep_view().subrange(i as int, n as int);
        let ghost pt = previews.deep_view().subrange(i as int, n as int);
        proof {
            assert(nt[0] == names.deep_view()[i as int]);
            assert(pt[0] == previews.deep_view()[i as int]);
            assert(nt.drop_first() =~= names.deep_view().subrange(i + 1, n as int));
            assert(pt.drop_first() =~= previews.deep_view().subrange(i + 1, n as int));
        }
        let ghost old_out = out@;
        out.append("File: ");
        out.append(names[i].as_str());
        out.append("\nPreview:\n");
        out.append(previews[i].as_str());
        out.append("\n\n---\n\n");
        proof {
            assert(out@ =~= old_out + ("File: "@ + nt[0] + "\nPreview:\n"@ + pt[0]
                + "\n\n---\n\n"@));
            assert(out@ + listing_spec(nt.drop_first(), pt.drop_first()) =~= old_out
                + listing_spec(nt, pt));
        }
        i += 1;
    }
    proof {
        assert(names.deep_view().subrange(n as int, n as int) =~= Seq::<Seq<char>>::empty());
        assert(previews.deep_view().subrange(n as int, n as int) =~= Seq::<Seq<char>>::empty());
        assert(out@ + Seq::<char>::empty() =~= out@);
    }
    out
}

} // verus!

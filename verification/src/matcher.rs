//! The deterministic match scorer: the guaranteed-available fallback used
//! to pick the best snippet for a free-text query. The query is lowercased
//! and split on whitespace; a candidate scores the summed length of every
//! term that occurs in the lowercased concatenation of its name and
//! content, plus a fixed bonus when its lowercased name contains the whole
//! lowercased query. Candidates scoring zero are excluded; ties go to the
//! earliest candidate.
use vstd::prelude::*;

use crate::snippet::Snippet;
use crate::snippet::SnippetView;
use crate::text::contains_seq;
use crate::text::lower_of;
use crate::text::split_ws;
use crate::text::sum_lens;
use crate::text::lemma_split_ws_rec_sum;
use crate::text::to_lowercase;
use crate::text::split_whitespace_terms;
use crate::text::str_contains;
use vstd::string::StringExecFns;
use vstd::string::StrSliceExecFns;

verus! {

/// The bonus a candidate earns when its name contains the whole query.
pub open spec fn name_bonus() -> nat {
    50
}

/// What one query term contributes to a candidate's score.
pub open spec fn term_score(term: Seq<char>, hay: Seq<char>) -> nat {
    if contains_seq(hay, term) {
        term.len()
    } else {
        0
    }
}

/// What a sequence of query terms contributes to a candidate's score.
pub open spec fn score_terms(terms: Seq<Seq<char>>, hay: Seq<char>) -> nat
    decreases terms.len(),
{
    if terms.len() == 0 {
        0
    } else {
        term_score(terms[0], hay) + score_terms(terms.drop_first(), hay)
    }
}

/// The text a candidate is scored against: its name and content, joined
/// by a space.
pub open spec fn combined_text(s: SnippetView) -> Seq<char> {
    s.name + " "@ + s.content
}

/// The score of a candidate snippet for a query.
pub open spec fn snippet_score(s: SnippetView, query: Seq<char>) -> nat {
    score_terms(split_ws(lower_of(query)), lower_of(combined_text(s)))
        + if contains_seq(lower_of(s.name), lower_of(query)) {
        name_bonus()
    } else {
        0
    }
}

/// `i` names the match scorer's choice: the earliest candidate attaining
/// the strictly positive maximal score.
pub open spec fn is_best_match(views: Seq<SnippetView>, query: Seq<char>, i: int) -> bool {
    &&& 0 <= i < views.len()
    &&& snippet_score(views[i], query) > 0
    &&& forall|j: int| 0 <= j < i ==> snippet_score(views[j], query) < snippet_score(views[i], query)
    &&& forall|j: int|
        i <= j < views.len() ==> snippet_score(views[j], query) <= snippet_score(views[i], query)
}

/// Scoring a prefix then the rest equals scoring the whole.
proof fn lemma_score_terms_take(terms: Seq<Seq<char>>, hay: Seq<char>, k: int)
    requires
        0 <= k < terms.len(),
    ensures
        score_terms(terms.take(k + 1), hay) == score_terms(terms.take(k), hay) + term_score(
            terms[k],
            hay,
        ),
    decreases k,
{
    let a = terms.take(k + 1);
    let b = terms.take(k);
    if k == 0 {
        assert(a.drop_first() =~= Seq::<Seq<char>>::empty());
        assert(b =~= Seq::<Seq<char>>::empty());
        assert(score_terms(a, hay) == term_score(a[0], hay) + score_terms(a.drop_first(), hay));
    } else {
        lemma_score_terms_take(terms.drop_first(), hay, k - 1);
        assert(a.drop_first() =~= terms.drop_first().take(k));
        assert(b.drop_first() =~= terms.drop_first().take(k - 1));
        assert(terms.drop_first()[k - 1] == terms[k]);
        assert(score_terms(a, hay) == term_score(a[0], hay) + score_terms(a.drop_first(), hay));
        assert(score_terms(b, hay) == term_score(b[0], hay) + score_terms(b.drop_first(), hay));
    }
}

/// A score never exceeds the total length of the query terms.
proof fn lemma_score_terms_bound(terms: Seq<Seq<char>>, hay: Seq<char>)
    ensures
        score_terms(terms, hay) <= sum_lens(terms),
    decreases terms.len(),
{
    if terms.len() > 0 {
        lemma_score_terms_bound(terms.drop_first(), hay);
    }
}

/// Sums what each query term contributes for one candidate text.
fn score_terms_exec(terms: &Vec<String>, hay: &str) -> (r: u128)
    requires
        sum_lens(terms.deep_view()) <= usize::MAX,
    ensures
        r == score_terms(terms.deep_view(), hay@),
{
    let n = terms.len();
    let mut acc: u128 = 0;
    let mut k: usize = 0;
    proof {
        assert(terms.deep_view().take(0) =~= Seq::<Seq<char>>::empty());
    }
    while k < n
        invariant
            k <= n,
            n == terms.len(),
            sum_lens(terms.deep_view()) <= usize::MAX,
            acc == score_terms(terms.deep_view().take(k as int), hay@),
        decreases n - k,
    {
        proof {
            lemma_score_terms_take(terms.deep_view(), hay@, k as int);
            lemma_score_terms_bound(terms.deep_view().take(k + 1), hay@);
            lemma_sum_lens_take(terms.deep_view(), k + 1);
        }
        let term = &terms[k];
        if str_contains(hay, term.as_str()) {
            let tl = term.as_str().unicode_len();
            acc = acc + tl as u128;
        }
        k += 1;
    }
    proof {
        assert(terms.deep_view().take(n as int) =~= terms.deep_view());
    }
    acc
}

/// A prefix of the terms is no longer, in total, than all of them.
proof fn lemma_sum_lens_take(terms: Seq<Seq<char>>, k: int)
    requires
        0 <= k <= terms.len(),
    ensures
        sum_lens(terms.take(k)) <= sum_lens(terms),
    decreases terms.len(),
{
    if k == 0 {
        assert(terms.take(0) =~= Seq::<Seq<char>>::empty());
    } else {
        lemma_sum_lens_take(terms.drop_first(), k - 1);
        assert(terms.take(k).drop_first() =~= terms.drop_first().take(k - 1));
        assert(sum_lens(terms.take(k)) == terms[0].len() + sum_lens(terms.drop_first().take(k - 1)));
    }
}

/// The score of one candidate for the already-lowercased query terms.
fn score_snippet(
    terms: &Vec<String>,
    query_lower: &str,
    snippet: &Snippet,
    Ghost(query): Ghost<Seq<char>>,
) -> (r: u128)
    requires
        terms.deep_view() == split_ws(lower_of(query)),
        query_lower@ == lower_of(query),
        sum_lens(terms.deep_view()) <= usize::MAX,
    ensures
        r == snippet_score(snippet@, query),
{
    let mut combined = String::new();
    combined.append(snippet.name.as_str());
    combined.append(" ");
    combined.append(snippet.content.as_str());
    assert(combined@ =~= combined_text(snippet@));
    let hay = to_lowercase(combined.as_str());
    let base = score_terms_exec(terms, hay.as_str());
    let name_lower = to_lowercase(snippet.name.as_str());
    proof {
        lemma_score_terms_bound(terms.deep_view(), hay@);
    }
    if str_contains(name_lower.as_str(), query_lower) {
        base + 50
    } else {
        base
    }
}

/// Picks the earliest candidate with the strictly highest positive score,
/// if any candidate scores above zero.
pub fn fuzzy_match(snippets: &Vec<Snippet>, query: &str) -> (r: Option<usize>)
    ensures
        match r {
            Some(i) => is_best_match(snippets.deep_view(), query@, i as int),
            None => forall|j: int|
                0 <= j < snippets.len() ==> snippet_score(snippets.deep_view()[j], query@) == 0,
        },
{
    let query_lower = to_lowercase(query);
    let terms = split_whitespace_terms(query_lower.as_str());
    let ghost tv = terms.deep_view();
    proof {
        lemma_split_ws_rec_sum(query_lower@, Seq::empty());
    }
    let qlen = query_lower.as_str().unicode_len();
    assert(sum_lens(tv) <= usize::MAX);
    let n = snippets.len();
    let mut best: Option<usize> = None;
    let mut best_score: u128 = 0;
    let mut i: usize = 0;
    while i < n
        invariant
            i <= n,
            n == snippets.len(),
            terms.deep_view() == split_ws(lower_of(query@)),
            query_lower@ == lower_of(query@),
            sum_lens(terms.deep_view()) <= usize::MAX,
            match best {
                Some(b) => {
                    &&& b < i
                    &&& best_score == snippet_score(snippets.deep_view()[b as int], query@)
                    &&& best_score > 0
                    &&& forall|j: int|
                        0 <= j < b ==> snippet_score(snippets.deep_view()[j], query@) < best_score
                    &&& forall|j: int|
                        b <= j < i ==> snippet_score(snippets.deep_view()[j], query@) <= best_score
                },
                None => {
                    &&& best_score == 0
                    &&& forall|j: int|
                        0 <= j < i ==> snippet_score(snippets.deep_view()[j], query@) == 0
                },
            },
        decreases n - i,
    {
        let s = score_snippet(&terms, query_lower.as_str(), &snippets[i], Ghost(query@));
        if s > best_score {
            best = Some(i);
            best_score = s;
        }
        i += 1;
    }
    best
}

} // verus!

use mdsnippets::install::preview_content;
use mdsnippets::matcher::fuzzy_match;
use mdsnippets::resolver::select_by_id_response;
use mdsnippets::snippet::Snippet;

fn snippet(name: &str, content: &str) -> Snippet {
    Snippet {
        id: String::from("00000000-0000-0000-0000-000000000000"),
        name: String::from(name),
        content: String::from(content),
        created_at: String::from("2024-01-01T00:00:00+00:00"),
        description: None,
    }
}

fn with_id(id: &str, name: &str) -> Snippet {
    Snippet {
        id: String::from(id),
        name: String::from(name),
        content: String::new(),
        created_at: String::from("2024-01-01T00:00:00+00:00"),
        description: None,
    }
}

#[test]
fn scorer_prefers_candidate_matching_more_terms() {
    let candidates = vec![snippet("Deploying to AWS", ""), snippet("Local Dev Setup", "")];
    assert_eq!(fuzzy_match(&candidates, "aws deploy"), Some(0));
}

#[test]
fn scorer_returns_none_without_any_overlap() {
    let candidates = vec![snippet("Deploying to AWS", ""), snippet("Local Dev Setup", "")];
    assert_eq!(fuzzy_match(&candidates, "qqq zzz"), None);
}

#[test]
fn scorer_breaks_ties_by_enumeration_order() {
    let candidates = vec![snippet("docker tips", ""), snippet("docker tips", "")];
    assert_eq!(fuzzy_match(&candidates, "docker"), Some(0));
}

#[test]
fn scorer_name_bonus_outweighs_longer_content_match() {
    let candidates = vec![
        snippet("notes", "the full docker guide lives elsewhere"),
        snippet("docker guide", "short"),
    ];
    assert_eq!(fuzzy_match(&candidates, "docker guide"), Some(1));
}

#[test]
fn scorer_matches_terms_in_content_too() {
    let candidates = vec![snippet("misc", "contains kubernetes manifests"), snippet("other", "")];
    assert_eq!(fuzzy_match(&candidates, "kubernetes"), Some(0));
}

#[test]
fn id_response_none_token_selects_nothing() {
    let snippets = vec![with_id("abc123def", "one")];
    assert_eq!(select_by_id_response(&snippets, "NONE", "one"), None);
}

#[test]
fn id_response_prefix_match_selects_that_snippet() {
    let snippets = vec![with_id("abc123def", "one"), with_id("xyz789", "two")];
    assert_eq!(select_by_id_response(&snippets, "xyz", "unrelated"), Some(1));
}

#[test]
fn id_response_falls_back_to_scorer() {
    let snippets = vec![with_id("id-one", "alpha"), with_id("id-two", "beta notes")];
    assert_eq!(select_by_id_response(&snippets, "no such id", "beta"), Some(1));
}

#[test]
fn preview_truncates_after_five_lines() {
    let content = "l1\nl2\nl3\nl4\nl5\nl6\nl7";
    assert_eq!(preview_content(content), "l1\nl2\nl3\nl4\nl5\n... (truncated)");
}

#[test]
fn preview_keeps_short_content_whole() {
    assert_eq!(preview_content("l1\nl2"), "l1\nl2");
}

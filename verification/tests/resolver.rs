use mdsnippets::resolver::build_file_listing;
use mdsnippets::resolver::build_candidate_listing;
use mdsnippets::resolver::build_oracle_prompt;
use mdsnippets::resolver::prefilter_candidates;
use mdsnippets::resolver::resolve_prefilter;
use mdsnippets::resolver::resolve_with_oracle;
use mdsnippets::resolver::OracleOutcome;
use mdsnippets::resolver::PreStep;
use mdsnippets::resolver::Resolution;

fn names(v: &[&str]) -> Vec<String> {
    v.iter().map(|s| String::from(*s)).collect()
}

#[test]
fn prefilter_single_containment_resolves_without_oracle() {
    let candidates = names(&["setup-aws.md", "setup-local.md"]);
    let hits = prefilter_candidates(&candidates, "aws");
    assert_eq!(hits, vec![0]);
    assert!(matches!(resolve_prefilter(&hits), PreStep::Resolved(0)));
}

#[test]
fn prefilter_is_case_insensitive() {
    let candidates = names(&["Setup-AWS.md", "setup-local.md"]);
    let hits = prefilter_candidates(&candidates, "aws");
    assert_eq!(hits, vec![0]);
}

#[test]
fn ambiguous_prefilter_with_unusable_oracle_lists_both() {
    let candidates = names(&["a.md", "ab.md"]);
    let hits = prefilter_candidates(&candidates, "a");
    assert_eq!(hits, vec![0, 1]);
    assert!(matches!(resolve_prefilter(&hits), PreStep::AskOracle));
    match resolve_with_oracle(&candidates, &hits, &OracleOutcome::Unavailable) {
        Resolution::Ambiguous(listed) => assert_eq!(listed, vec![0, 1]),
        _ => panic!("expected an ambiguity listing both files"),
    }
}

#[test]
fn empty_prefilter_with_unusable_oracle_reports_no_match() {
    let candidates = names(&["a.md", "b.md"]);
    let hits: Vec<usize> = Vec::new();
    assert!(matches!(
        resolve_with_oracle(&candidates, &hits, &OracleOutcome::Failed),
        Resolution::NotFound
    ));
}

#[test]
fn sole_prefilter_match_survives_oracle_failure() {
    let candidates = names(&["a.md", "b.md"]);
    let hits = vec![1];
    assert!(matches!(
        resolve_with_oracle(&candidates, &hits, &OracleOutcome::Failed),
        Resolution::Chosen(1)
    ));
}

#[test]
fn oracle_answer_naming_a_candidate_wins() {
    let candidates = names(&["a.md", "b.md"]);
    let hits = vec![0, 1];
    assert!(matches!(
        resolve_with_oracle(&candidates, &hits, &OracleOutcome::Answer(String::from("b.md"))),
        Resolution::Chosen(1)
    ));
}

#[test]
fn oracle_no_match_token_means_no_candidate() {
    let candidates = names(&["a.md"]);
    let hits = vec![0];
    assert!(matches!(
        resolve_with_oracle(&candidates, &hits, &OracleOutcome::Answer(String::from("NONE"))),
        Resolution::NoCandidate
    ));
}

#[test]
fn oracle_answer_naming_nothing_on_disk_falls_back() {
    let candidates = names(&["a.md"]);
    let hits = vec![0];
    assert!(matches!(
        resolve_with_oracle(
            &candidates,
            &hits,
            &OracleOutcome::Answer(String::from("ghost.md"))
        ),
        Resolution::Chosen(0)
    ));
}

#[test]
fn oracle_prompt_embeds_query_and_listing() {
    let prompt = build_oracle_prompt("aws", "File: a.md\n\n");
    assert_eq!(
        prompt,
        "Based on the query 'aws', which file from the list below is the best match? \
         Just respond with the exact filename (including extension), nothing else.\n\nFile: a.md\n\n"
    );
}

#[test]
fn file_listing_enumerates_names_and_previews() {
    let listing = build_file_listing(&names(&["a.md"]), &names(&["first line"]));
    assert_eq!(listing, "File: a.md\nPreview:\nfirst line\n\n---\n\n");
}

#[test]
fn candidate_listing_enumerates_rendered_previews() {
    let listing = build_candidate_listing(&names(&["a.md"]), &names(&["Name: x"]));
    assert_eq!(listing, "File: a.md\nName: x\n\n---\n\n");
}

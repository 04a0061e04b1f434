use mdsnippets::repo::candidate_preview;
use mdsnippets::repo::count_snippet_files;
use mdsnippets::repo::created_at_display;
use mdsnippets::repo::decode_candidate;
use mdsnippets::repo::filter_candidate_filenames;
use mdsnippets::repo::first_lines;
use mdsnippets::repo::sort_snippets_by_created_desc;
use mdsnippets::snippet::Snippet;

fn names(v: &[&str]) -> Vec<String> {
    v.iter().map(|s| String::from(*s)).collect()
}

fn dated(name: &str, created_at: &str) -> Snippet {
    Snippet {
        id: String::from(name),
        name: String::from(name),
        content: String::new(),
        created_at: String::from(created_at),
        description: None,
    }
}

#[test]
fn filtering_keeps_markdown_and_drops_documentation() {
    let entries = names(&["a.md", "README.md", "notes.txt", "b.md", "readme-first.md"]);
    let kept = filter_candidate_filenames(&entries);
    assert_eq!(kept, names(&["a.md", "b.md"]));
    assert_eq!(count_snippet_files(&entries), 2);
}

#[test]
fn unparseable_file_becomes_a_nameable_candidate() {
    let s = decode_candidate("my_gui_snippet.md", String::from("raw notes, no metadata"));
    assert_eq!(s.id, "unknown");
    assert_eq!(s.created_at, "unknown");
    assert_eq!(s.name, "my gui snippet");
    assert_eq!(s.content, "raw notes, no metadata");
    assert_eq!(s.description, None);
}

#[test]
fn parseable_file_keeps_its_metadata() {
    let doc = "---\nid: the-id\nname: The Name\ncreated_at: t0\ndescription: null\n---\n\nbody";
    let s = decode_candidate("whatever.md", String::from(doc));
    assert_eq!(s.id, "the-id");
    assert_eq!(s.name, "The Name");
    assert_eq!(s.content, "body");
}

#[test]
fn listing_sorts_newest_first() {
    let out = sort_snippets_by_created_desc(vec![
        dated("old", "2023-01-01T00:00:00+00:00"),
        dated("new", "2025-06-01T00:00:00+00:00"),
        dated("mid", "2024-03-01T00:00:00+00:00"),
    ]);
    let order: Vec<&str> = out.iter().map(|s| s.name.as_str()).collect();
    assert_eq!(order, vec!["new", "mid", "old"]);
}

#[test]
fn created_at_is_rendered_in_display_form() {
    assert_eq!(created_at_display("2024-01-15T10:30:00+00:00"), "2024-01-15 10:30");
    assert_eq!(created_at_display("unknown"), "unknown");
    assert_eq!(created_at_display("not a date"), "not a date");
}

#[test]
fn previews_show_structured_and_raw_files_differently() {
    let doc = "---\nid: i\nname: Tips\ncreated_at: t\ndescription: null\n---\n\nl1\nl2";
    let p = candidate_preview(&String::from(doc));
    assert_eq!(p, "Name: Tips\nContent preview:\nl1\nl2");
    let raw = candidate_preview(&String::from("r1\nr2\nr3"));
    assert_eq!(raw, "r1\nr2\nr3");
}

#[test]
fn first_lines_cuts_at_the_limit() {
    assert_eq!(first_lines("a\nb\nc\nd", 2), "a\nb");
    assert_eq!(first_lines("a\nb", 10), "a\nb");
    assert_eq!(first_lines("", 10), "");
}

use mdsnippets::install::notes_md_location;
use mdsnippets::install::install_to_notes_md;
use mdsnippets::install::InstallTarget;
use mdsnippets::names::build_extract_document;
use mdsnippets::names::extract_filename;
use mdsnippets::names::generate_name_from_content;
use mdsnippets::names::get_name_from_file;
use mdsnippets::names::make_snippet;
use mdsnippets::names::publish_filename;
use mdsnippets::names::snippet_display_label;
use mdsnippets::names::snippet_from_document;
use mdsnippets::snippet::Snippet;

#[test]
fn name_from_file_drops_id_suffix_and_reads_underscores_as_spaces() {
    assert_eq!(get_name_from_file(Some("my_gui_snippet-abc12345"), &None), "my gui snippet");
    assert_eq!(get_name_from_file(Some("plain_stem"), &None), "plain stem");
    assert_eq!(get_name_from_file(Some("stem"), &Some(String::from("Custom"))), "Custom");
    assert_eq!(get_name_from_file(None, &None), "Untitled");
}

#[test]
fn generated_name_takes_first_words_of_ordinary_line() {
    let n = generate_name_from_content("  run the test suite nightly\nmore text");
    assert_eq!(n, Some(String::from("run the test suite")));
}

#[test]
fn generated_name_falls_back_to_first_heading() {
    let n = generate_name_from_content("## Deploy Guide\n");
    assert_eq!(n, Some(String::from("Deploy Guide")));
    assert_eq!(generate_name_from_content(""), None);
    assert_eq!(generate_name_from_content("###\n   \n"), None);
}

#[test]
fn made_snippet_prefers_custom_then_generated_then_fallback_name() {
    let s = make_snippet(
        String::from("some reusable text"),
        None,
        String::from("id-1"),
        String::from("t0"),
        String::from("snippet-20240101-0000"),
    );
    assert_eq!(s.name, "some reusable text");
    assert_eq!(s.id, "id-1");
    assert_eq!(s.created_at, "t0");
    assert_eq!(s.description, None);
    let s = make_snippet(
        String::new(),
        None,
        String::from("id-2"),
        String::from("t1"),
        String::from("snippet-20240101-0000"),
    );
    assert_eq!(s.name, "snippet-20240101-0000");
}

#[test]
fn republished_file_keeps_parseable_metadata() {
    let doc = String::from(
        "---\nid: keep-me-12345678\nname: Old Name\ncreated_at: t0\ndescription: d\n---\n\nbody",
    );
    let s = snippet_from_document(&doc, Some("stem-abc"), None, String::from("fresh"), String::from("t9"));
    assert_eq!(s.id, "keep-me-12345678");
    assert_eq!(s.created_at, "t0");
    assert_eq!(s.name, "Old Name");
    assert_eq!(s.description, Some(String::from("d")));
    let s = snippet_from_document(
        &doc,
        Some("stem-abc"),
        Some(String::from("Renamed")),
        String::from("fresh"),
        String::from("t9"),
    );
    assert_eq!(s.id, "keep-me-12345678");
    assert_eq!(s.name, "Renamed");
}

#[test]
fn republished_raw_file_gets_fresh_metadata() {
    let doc = String::from("no frontmatter here");
    let s = snippet_from_document(&doc, Some("my_notes-abc123"), None, String::from("fresh-id"), String::from("t9"));
    assert_eq!(s.id, "fresh-id");
    assert_eq!(s.created_at, "t9");
    assert_eq!(s.name, "my notes");
    assert_eq!(s.content, "no frontmatter here");
}

#[test]
fn publish_filename_joins_lowercased_name_and_id_prefix() {
    assert_eq!(
        publish_filename("My AWS Notes", "abcdef1234567890"),
        "my-aws-notes-abcdef12.md"
    );
}

#[test]
fn extract_filename_sanitizes_the_query() {
    assert_eq!(
        extract_filename("Running GUI Applications", "abcdef1234567890"),
        "running_gui_applications-abcdef12.md"
    );
}

#[test]
fn display_label_shows_name_and_short_id() {
    let s = Snippet {
        id: String::from("abcdef1234567890"),
        name: String::from("Tips"),
        content: String::new(),
        created_at: String::new(),
        description: None,
    };
    assert_eq!(snippet_display_label(&s), "'Tips' (ID: abcdef12)");
}

#[test]
fn extract_document_records_source_and_query() {
    let doc = build_extract_document("gui apps", " extracted text \n", "id-1", "t0");
    assert_eq!(
        doc,
        "---\nid: id-1\nname: gui apps\ncreated_at: t0\ndescription: Extracted from the user notes file\nsource: extract\nquery: gui apps\n---\n\nextracted text"
    );
}

#[test]
fn install_appends_headed_content_as_it_stands() {
    let s = Snippet {
        id: String::new(),
        name: String::from("Tips"),
        content: String::from("\n# Tips\nbody\n"),
        created_at: String::new(),
        description: None,
    };
    assert_eq!(install_to_notes_md("existing", &s), "existing\n\n# Tips\nbody");
}

#[test]
fn install_adds_a_heading_to_plain_content() {
    let s = Snippet {
        id: String::new(),
        name: String::from("Tips"),
        content: String::from("plain body"),
        created_at: String::new(),
        description: None,
    };
    assert_eq!(
        install_to_notes_md("existing", &s),
        "existing\n\n# Tips (installed snippet)\n\nplain body"
    );
}

#[test]
fn install_location_follows_flags_then_configuration() {
    assert_eq!(notes_md_location(true, false, "user"), InstallTarget::LocalDir);
    assert_eq!(notes_md_location(false, true, "local"), InstallTarget::UserDir);
    assert_eq!(notes_md_location(false, false, "user"), InstallTarget::UserDir);
    assert_eq!(notes_md_location(false, false, "local"), InstallTarget::LocalDir);
    assert_eq!(notes_md_location(false, false, "odd"), InstallTarget::LocalDir);
}

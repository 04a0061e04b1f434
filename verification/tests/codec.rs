use mdsnippets::codec::create_markdown_with_frontmatter;
use mdsnippets::codec::parse_markdown_frontmatter;
use mdsnippets::names::sanitize_filename;
use mdsnippets::snippet::Snippet;

fn sample(description: Option<&str>) -> Snippet {
    Snippet {
        id: String::from("123e4567-e89b-12d3-a456-426614174000"),
        name: String::from("Deploying to AWS"),
        content: String::from("# Deploy\n\nRun the pipeline.\n"),
        created_at: String::from("2024-01-15T10:30:00+00:00"),
        description: description.map(String::from),
    }
}

#[test]
fn test_sanitize_filename() {
    assert_eq!(sanitize_filename("Running GUI Applications"), "running_gui_applications");
    assert_eq!(sanitize_filename("Test/Path\\Name"), "test_path_name");
    assert_eq!(sanitize_filename("Special-Characters!@#"), "special-characters___");
}

#[test]
fn encode_produces_expected_document() {
    let doc = create_markdown_with_frontmatter(&sample(Some("deploy notes")));
    let expected = "---\nid: 123e4567-e89b-12d3-a456-426614174000\nname: Deploying to AWS\ncreated_at: 2024-01-15T10:30:00+00:00\ndescription: deploy notes\n---\n\n# Deploy\n\nRun the pipeline.\n";
    assert_eq!(doc, expected);
}

#[test]
fn encode_writes_null_for_missing_description() {
    let doc = create_markdown_with_frontmatter(&sample(None));
    assert!(doc.contains("description: null\n"));
}

#[test]
fn round_trip_with_description() {
    let s = sample(Some("deploy notes"));
    let doc = create_markdown_with_frontmatter(&s);
    let back = parse_markdown_frontmatter(&doc).unwrap();
    assert_eq!(back.id, s.id);
    assert_eq!(back.name, s.name);
    assert_eq!(back.content, s.content);
    assert_eq!(back.created_at, s.created_at);
    assert_eq!(back.description, Some(String::from("deploy notes")));
}

#[test]
fn round_trip_without_description() {
    let s = sample(None);
    let doc = create_markdown_with_frontmatter(&s);
    let back = parse_markdown_frontmatter(&doc).unwrap();
    assert_eq!(back.id, s.id);
    assert_eq!(back.name, s.name);
    assert_eq!(back.content, s.content);
    assert_eq!(back.created_at, s.created_at);
    assert_eq!(back.description, None);
}

#[test]
fn decode_rejects_single_delimiter() {
    assert!(parse_markdown_frontmatter("---\nid: x\nno closing delimiter").is_err());
}

#[test]
fn decode_rejects_missing_frontmatter() {
    assert!(parse_markdown_frontmatter("just plain content").is_err());
}

#[test]
fn decode_defaults_missing_keys_to_empty() {
    let s = parse_markdown_frontmatter("---\nname: Hi\n---\n\nbody").unwrap();
    assert_eq!(s.id, "");
    assert_eq!(s.created_at, "");
    assert_eq!(s.name, "Hi");
    assert_eq!(s.content, "body");
    assert_eq!(s.description, None);
}

#[test]
fn decode_reads_literal_null_description_as_absent() {
    let s =
        parse_markdown_frontmatter("---\nid: a\nname: b\ncreated_at: c\ndescription: null\n---\n\nbody")
            .unwrap();
    assert_eq!(s.description, None);
}

#[test]
fn decode_keeps_content_after_further_delimiters() {
    let s = parse_markdown_frontmatter("---\nid: a\n---\n\nfirst\n---\nsecond").unwrap();
    assert_eq!(s.content, "first\n---\nsecond");
}

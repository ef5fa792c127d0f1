use paperview::links::{
    anchor_block_index, is_external_link_target, link_action, missing_anchor_message, open_link_target,
    resolve_link_target, resolve_local_document_link, LinkAction,
};
use paperview::Document;

#[test]
fn empty_links_are_rejected_before_platform_open() {
    assert_eq!(open_link_target(String::new()).expect_err("reject empty link"), "cannot open an empty link");
}

#[test]
fn blank_links_are_rejected_and_others_pass() {
    assert_eq!(open_link_target("  \t".to_owned()), Err("cannot open an empty link".to_owned()));
    assert_eq!(open_link_target("https://example.com".to_owned()), Ok("https://example.com".to_owned()));
}

#[test]
fn relative_links_resolve_against_active_document_parent() {
    let path = "/tmp/links/links-source.md".to_owned();
    assert_eq!(resolve_link_target("docs/guide.md", Some(&path)), "/tmp/links/docs/guide.md");
    assert_eq!(resolve_link_target("https://example.com", Some(&path)), "https://example.com");
    assert_eq!(resolve_link_target("#section", Some(&path)), "#section");
    assert_eq!(resolve_link_target("docs/guide.md", None), "docs/guide.md");
}

#[test]
fn external_links_do_not_resolve_as_local_documents() {
    let source = Document::from_source("# Source").with_path("/tmp/links/source.md");
    assert_eq!(resolve_local_document_link("https://example.com/guide.md", Some(&source)), None);
    assert_eq!(resolve_local_document_link("mailto:team@example.com", Some(&source)), None);
    assert!(is_external_link_target("tel:123"));
    assert!(!is_external_link_target("guide.md"));
}

#[test]
fn local_document_links_resolve_beside_the_active_document() {
    let source = Document::from_source("# Source").with_path("/tmp/links/source.md");
    assert_eq!(
        resolve_local_document_link(" local-link-target.md#part ", Some(&source)),
        Some("/tmp/links/local-link-target.md".to_owned())
    );
    assert_eq!(resolve_local_document_link("image.png", Some(&source)), None);
    assert_eq!(resolve_local_document_link("#top", Some(&source)), None);
    assert_eq!(resolve_local_document_link("notes.md", None), None);
    assert_eq!(resolve_local_document_link("/abs/notes.txt", None), Some("/abs/notes.txt".to_owned()));
}

#[test]
fn link_actions_follow_the_target() {
    let source = Document::from_source("# Source").with_path("/tmp/links/source.md");
    assert_eq!(link_action("#details", Some(&source)), LinkAction::Anchor("details".to_owned()));
    assert_eq!(
        link_action("guide.md", Some(&source)),
        LinkAction::OpenDocument("/tmp/links/guide.md".to_owned())
    );
    assert_eq!(
        link_action("picture.png", Some(&source)),
        LinkAction::OpenExternal("/tmp/links/picture.png".to_owned())
    );
    assert_eq!(
        link_action("https://example.com", None),
        LinkAction::OpenExternal("https://example.com".to_owned())
    );
}

#[test]
fn anchor_links_select_matching_heading() {
    let document = Document::from_source("# Intro\n\n[Jump](#details)\n\n## Details");
    assert_eq!(anchor_block_index(&document, "details"), Some(2));
}

#[test]
fn anchor_links_use_duplicate_heading_slugs() {
    let document = Document::from_source("# Intro\n\n## Details\n\n## Details\n\n[Jump](#details-2)");
    assert_eq!(anchor_block_index(&document, "details-2"), Some(2));
}

#[test]
fn missing_anchor_links_set_error_status() {
    let document = Document::from_source("# Intro\n\n[Missing](#missing)");
    assert_eq!(anchor_block_index(&document, "missing"), None);
    assert_eq!(missing_anchor_message("missing"), "heading anchor not found: #missing");
}

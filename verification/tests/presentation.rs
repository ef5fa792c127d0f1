use paperview::{presentation_deck, PresentationDeck};

#[test]
fn splits_slides_on_thematic_rules() {
    let deck = presentation_deck("# Intro\n\nWelcome\n\n---\n\n## Details\n\nMore");

    assert_eq!(deck.len(), 2);
    assert_eq!(deck.slides()[0].title(), "Intro");
    assert_eq!(deck.slides()[0].source(), "# Intro\n\nWelcome");
    assert_eq!(deck.slides()[1].title(), "Details");
    assert_eq!(deck.slides()[1].source(), "## Details\n\nMore");
}

#[test]
fn falls_back_to_top_level_headings_without_rules() {
    let deck = presentation_deck("# First\n\nOne\n\n# Second\n\nTwo\n\n## Detail\n\nMore");

    assert_eq!(deck.len(), 2);
    assert_eq!(deck.slides()[0].source(), "# First\n\nOne");
    assert_eq!(
        deck.slides()[1].source(),
        "# Second\n\nTwo\n\n## Detail\n\nMore"
    );
}

#[test]
fn keeps_plain_document_as_one_slide() {
    let deck = presentation_deck("Plain notes\n\nwith context.");

    assert_eq!(deck.len(), 1);
    assert_eq!(deck.slides()[0].title(), "Plain notes");
    assert_eq!(deck.slides()[0].source(), "Plain notes\n\nwith context.");
}

#[test]
fn ignores_empty_rule_chunks() {
    let deck = presentation_deck("---\n\n# Only\n\n---\n\n");

    assert_eq!(deck.len(), 1);
    assert_eq!(deck.slides()[0].title(), "Only");
}

#[test]
fn empty_source_has_no_slides() {
    let deck = presentation_deck("\n\n");

    assert!(deck.is_empty());
}

#[test]
fn slide_titles_strip_closing_hashes_and_fall_back() {
    let deck = PresentationDeck::from_markdown("### Closing ###\nbody\n***\n  \n  text line  \n___\n####### seven\n");
    assert_eq!(deck.len(), 3);
    assert_eq!(deck.slides()[0].title(), "Closing");
    assert_eq!(deck.slides()[1].title(), "text line");
    assert_eq!(deck.slides()[2].title(), "####### seven");
}

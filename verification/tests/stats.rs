use paperview::stats::{estimated_reading_minutes, word_count};
use paperview::{document_stats, Document};

#[test]
fn counts_document_metadata() {
    let document = Document::from_source("# PaperView\n\nNative Markdown viewer.");
    let stats = document.stats();

    assert_eq!(stats.word_count, 4);
    assert_eq!(stats.line_count, 3);
    assert_eq!(stats.heading_count, 1);
    assert_eq!(stats.estimated_reading_minutes, 1);
    assert_eq!(stats.headings[0].title, "PaperView");
}

#[test]
fn empty_documents_have_zero_reading_time() {
    let document = Document::from_source("");
    let stats = document_stats(document.source(), document.parsed());

    assert_eq!(stats.word_count, 0);
    assert_eq!(stats.estimated_reading_minutes, 0);
    assert!(stats.headings.is_empty());
}

#[test]
fn words_split_on_punctuation_but_keep_apostrophes() {
    let chars: Vec<char> = "don't -- stop, ' 3.14 über".chars().collect();
    assert_eq!(word_count(&chars), 5);
    assert_eq!(estimated_reading_minutes(200), 1);
    assert_eq!(estimated_reading_minutes(201), 2);
    assert_eq!(estimated_reading_minutes(0), 0);
}

use paperview::memory::estimated_memory_bytes;
use paperview::Document;

#[test]
fn estimates_memory_from_source_blocks_and_lines() {
    let document = Document::from_source("# Hi\n\n`x` [l](u)");
    let lines = vec!["a".to_owned(), "bc".to_owned()];
    // source 16 bytes, heading 2, paragraph spans "x" + " " + "l" with link "u" = 4, lines 3
    assert_eq!(estimated_memory_bytes(&document, &lines), 16 + 2 + 4 + 3);
}

#[test]
fn counts_table_and_code_text() {
    let document = Document::from_source("```rs\nab\n```\n\n| A | B |\n| - | - |\n| c | d |\n");
    // code "rs" + "ab\n" = 5, table cells A B c d = 4
    let source_bytes = document.source().len();
    assert_eq!(estimated_memory_bytes(&document, &[]), source_bytes + 5 + 4);
}

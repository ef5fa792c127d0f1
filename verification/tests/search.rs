use paperview::search::{parse_ripgrep_vimgrep, workspace_search_outcome, workspace_search_query};
use paperview::{search_lines, WorkspaceSearchError, WorkspaceSearchMatch};

#[test]
fn finds_case_insensitive_line_matches() {
    let matches = search_lines("# PaperView\n\nNative paper reader.", "paper");

    assert_eq!(matches.len(), 2);
    assert_eq!(matches[0].line_index, 0);
    assert_eq!(matches[0].column, 2);
    assert_eq!(matches[1].line_index, 2);
    assert_eq!(matches[1].column, 7);
}

#[test]
fn ignores_empty_queries() {
    assert!(search_lines("PaperView", " ").is_empty());
}

#[test]
fn parses_ripgrep_vimgrep_output() {
    let matches = parse_ripgrep_vimgrep("docs/PRD.md:1:3:PaperView\nREADME.md:9:1:PaperView")
        .expect("parse rg output");

    assert_eq!(
        matches,
        vec![
            WorkspaceSearchMatch {
                path: "docs/PRD.md".into(),
                line_number: 1,
                column: 3,
                line: "PaperView".to_owned()
            },
            WorkspaceSearchMatch {
                path: "README.md".into(),
                line_number: 9,
                column: 1,
                line: "PaperView".to_owned()
            }
        ]
    );
}

#[test]
fn rejects_invalid_ripgrep_output() {
    assert!(parse_ripgrep_vimgrep("not enough parts").is_err());
}

#[test]
fn query_is_trimmed_and_lowercased_for_line_search() {
    let matches = search_lines("ALPHA beta\nGamma", "  BETA ");
    assert_eq!(matches.len(), 1);
    assert_eq!(matches[0].column, 6);
    assert_eq!(matches[0].line, "ALPHA beta");
}

#[test]
fn vimgrep_text_keeps_its_colons_and_numbers_must_parse() {
    let matches = parse_ripgrep_vimgrep("a.md:+2:5:x: y").expect("parse");
    assert_eq!(matches[0].line_number, 2);
    assert_eq!(matches[0].line, "x: y");
    assert_eq!(
        parse_ripgrep_vimgrep("ok.md:1:1:fine\nbad.md:x:1:text"),
        Err(WorkspaceSearchError::InvalidOutput { line: "bad.md:x:1:text".to_owned() })
    );
    assert!(parse_ripgrep_vimgrep("a.md:99999999999999999999999:1:t").is_err());
}

#[test]
fn ripgrep_exit_codes_and_queries() {
    assert_eq!(workspace_search_query("  "), None);
    assert_eq!(workspace_search_query(" paper "), Some("paper".to_owned()));
    assert_eq!(workspace_search_outcome(false, Some(1), "exit status: 1", "", ""), Ok(vec![]));
    let error = workspace_search_outcome(false, Some(2), "exit status: 2", "", " bad regex \n").unwrap_err();
    assert_eq!(error.message(), "rg exited with exit status: 2: bad regex");
    let quiet = WorkspaceSearchError::RipgrepExited { status: "signal".to_owned(), stderr: String::new() };
    assert_eq!(quiet.message(), "rg exited with signal");
}

#[test]
fn search_finds_every_matching_line_in_order_ignoring_case() {
    let source = "Alpha\nbeta ALPHA\ngamma\nalphabet";
    let lower = search_lines(source, "alpha");
    let upper = search_lines(source, "  ALPHA ");
    let indexes: Vec<usize> = lower.iter().map(|m| m.line_index).collect();
    assert_eq!(indexes, vec![0, 1, 3]);
    assert_eq!(lower[1].column, 5);
    assert_eq!(lower[1].line, "beta ALPHA");
    assert_eq!(lower, upper);
    assert!(search_lines(source, "   ").is_empty());
}

#[test]
fn search_column_counts_original_characters_before_the_match() {
    let matches = search_lines("\u{212A}\u{212A}\u{212A}a", "a");
    assert_eq!(matches.len(), 1);
    assert_eq!(matches[0].column, 1);
    let accented = search_lines("caf\u{e9} bar", "bar");
    assert_eq!(accented[0].column, 5);
}

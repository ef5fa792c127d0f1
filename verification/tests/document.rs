use paperview::document::openable_file_type;
use paperview::{toggle_task_line_source, Document, DocumentError, SupportedFileType};

#[test]
fn uses_first_h1_as_title() {
    let document = Document::from_source("# PaperView\n\nNative Markdown viewer.");

    assert_eq!(document.title(), "PaperView");
}

#[test]
fn falls_back_to_untitled_without_h1() {
    let document = Document::from_source("Native Markdown viewer.");

    assert_eq!(document.title(), "Untitled");
}

#[test]
fn recognizes_supported_file_types() {
    assert_eq!(
        SupportedFileType::from_path("notes.md"),
        Some(SupportedFileType::Markdown)
    );
    assert_eq!(
        SupportedFileType::from_path("notes.markdown"),
        Some(SupportedFileType::Markdown)
    );
    assert_eq!(
        SupportedFileType::from_path("notes.txt"),
        Some(SupportedFileType::PlainText)
    );
    assert_eq!(
        SupportedFileType::from_path("resume.tex"),
        Some(SupportedFileType::Tex)
    );
    assert_eq!(SupportedFileType::from_path("notes.html"), None);
}

#[test]
fn tex_files_are_not_opened_as_markdown_documents() {
    let error = openable_file_type("open-tex-document.tex").expect_err("tex should require compile path");

    assert!(matches!(
        error,
        DocumentError::CompiledFileRequiresCompile {
            file_type: SupportedFileType::Tex,
            ..
        }
    ));
    assert!(error.message().contains("must be compiled"));
}

#[test]
fn opens_supported_utf8_document() {
    let path = "open-supported-document.md";
    let document = Document::open(path, Ok("# Loaded\n\nFrom disk.".to_owned())).expect("open document");

    assert_eq!(document.path().map(|p| p.as_str()), Some(path));
    assert_eq!(document.title(), "Loaded");
    assert_eq!(document.source(), "# Loaded\n\nFrom disk.");
}

#[test]
fn searches_document_source() {
    let document = Document::from_source("# PaperView\n\nNative paper reader.");

    let matches = document.search("paper");

    assert_eq!(matches.len(), 2);
    assert_eq!(matches[0].line_index, 0);
    assert_eq!(matches[1].line_index, 2);
}

#[test]
fn reports_document_stats() {
    let document = Document::from_source("# PaperView\n\nNative paper reader.");
    let stats = document.stats();

    assert_eq!(stats.word_count, 4);
    assert_eq!(stats.heading_count, 1);
    assert_eq!(stats.headings[0].depth, 1);
}

#[test]
fn toggles_task_line_source() {
    let source = "- [ ] Todo\n- [x] Done\nPlain";

    assert_eq!(
        toggle_task_line_source(source, 0).as_deref(),
        Some("- [x] Todo\n- [x] Done\nPlain")
    );
    assert_eq!(
        toggle_task_line_source(source, 1).as_deref(),
        Some("- [ ] Todo\n- [ ] Done\nPlain")
    );
    assert_eq!(toggle_task_line_source(source, 2), None);
}

#[test]
fn rejects_unsupported_extension() {
    let error = Document::open("unsupported.html", Err("not read".to_owned())).expect_err("reject unsupported type");

    assert!(matches!(error, DocumentError::UnsupportedFileType { .. }));
}

#[test]
fn reports_read_failures_after_the_type_check() {
    let error = Document::open("notes.md", Err("no such file".to_owned())).expect_err("read failed");

    assert_eq!(error.message(), "failed to read notes.md: no such file");
    assert_eq!(
        openable_file_type("page.html").expect_err("html").message(),
        "unsupported document type: page.html"
    );
}

#[test]
fn toggling_twice_restores_the_source() {
    let source = "1. [X] Shipped\n   - [ ] nested\n";
    let once = toggle_task_line_source(source, 1).expect("toggle");
    assert_eq!(once, "1. [X] Shipped\n   - [x] nested\n");
    let twice = toggle_task_line_source(&once, 1).expect("toggle back");
    assert_eq!(twice, source);
    assert_eq!(toggle_task_line_source(source, 0).as_deref(), Some("1. [ ] Shipped\n   - [ ] nested\n"));
    assert_eq!(toggle_task_line_source(source, 2), None);
    assert_eq!(toggle_task_line_source("", 0), None);
}

#[test]
fn file_types_ignore_extension_case() {
    assert_eq!(SupportedFileType::from_path("NOTES.MD"), Some(SupportedFileType::Markdown));
    assert_eq!(SupportedFileType::from_path("notes"), None);
    assert!(SupportedFileType::PlainText.is_markdown_reader_document());
    assert!(!SupportedFileType::Tex.is_markdown_reader_document());
    assert_eq!(SupportedFileType::Tex.extension_label(), ".tex");
}

#[test]
fn toggling_twice_restores_the_line_but_lowers_x() {
    let source = "- [ ] a\n- [x] b\n- [X] c";
    let once = toggle_task_line_source(source, 0).expect("toggle");
    assert_eq!(toggle_task_line_source(&once, 0).as_deref(), Some(source));
    let once = toggle_task_line_source(source, 1).expect("toggle");
    assert_eq!(toggle_task_line_source(&once, 1).as_deref(), Some(source));
    let once = toggle_task_line_source(source, 2).expect("toggle");
    assert_eq!(once, "- [ ] a\n- [x] b\n- [ ] c");
    assert_eq!(toggle_task_line_source(&once, 2).as_deref(), Some("- [ ] a\n- [x] b\n- [x] c"));
}

#[test]
fn file_type_reads_the_last_extension_of_the_file_name() {
    assert_eq!(SupportedFileType::from_path("notes/archive.tar.MD"), Some(SupportedFileType::Markdown));
    assert_eq!(SupportedFileType::from_path("notes/.md"), None);
    assert_eq!(SupportedFileType::from_path("notes/readme"), None);
    assert_eq!(SupportedFileType::from_path("docs.md/readme"), None);
}

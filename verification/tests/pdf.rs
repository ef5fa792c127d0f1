use paperview::export::{export_document, ExportFormat};
use paperview::pdf::{export_pdf, pdf_image_paths, pdf_lines, wrap_text, ImageFile, ImageFileInfo};
use paperview::Document;

fn pdf_text(document: &Document, files: &[ImageFileInfo]) -> String {
    String::from_utf8_lossy(&export_pdf(document, files)).into_owned()
}

#[test]
fn exports_html_artifact() {
    let document = Document::from_source("# PaperView");
    let artifact = export_document(&document, ExportFormat::Html, &[]).expect("html export");

    assert_eq!(artifact.extension(), "html");
    assert!(artifact.contents().starts_with(b"<!doctype html>"));
}

#[test]
fn exports_pdf_artifact() {
    let document = Document::from_source("# PaperView");
    let artifact = export_document(&document, ExportFormat::Pdf, &[]).expect("pdf export");

    assert_eq!(artifact.extension(), "pdf");
    assert!(artifact.contents().starts_with(b"%PDF-1.4"));
    assert!(artifact.contents().ends_with(b"%%EOF\n"));
}

#[test]
fn exports_pdf_text_content() {
    let document = Document::from_source("# PaperView\n\n- [x] Done\n\n```rust\nfn main() {}\n```");
    let pdf_text = pdf_text(&document, &[]);

    assert!(pdf_text.contains("BT /F1 24 Tf"));
    assert!(pdf_text.contains("(PaperView) Tj"));
    assert!(pdf_text.contains("1 0 0 1 68.0"));
    assert!(pdf_text.contains("(- [x] Done) Tj"));
    assert!(pdf_text.contains("(code: rust) Tj"));
    assert!(pdf_text.contains("(fn main\\(\\) {}) Tj"));
}

#[test]
fn exports_pdf_table_structure() {
    let document = Document::from_source(
        "| Feature | Status |\n| :--- | ---: |\n| GUI | Done |\n| TUI | In progress |\n",
    );
    let pdf_text = pdf_text(&document, &[]);

    assert!(pdf_text.contains("(| Feature |      Status |) Tj"));
    assert!(pdf_text.contains("(| :------ | ----------: |) Tj"));
    assert!(pdf_text.contains("(| GUI     |        Done |) Tj"));
    assert!(pdf_text.contains("(| TUI     | In progress |) Tj"));
}

#[test]
fn exports_pdf_wrapped_table_cells() {
    let document = Document::from_source(
        "| Feature | Notes |\n| --- | --- |\n| TUI | This cell has enough words to wrap across more than one PDF table line. |\n",
    );
    let pdf_text = pdf_text(&document, &[]);

    assert!(pdf_text.contains("(| TUI     | This cell has enough     |) Tj"));
    assert!(pdf_text.contains("(|         | words to wrap across     |) Tj"));
    assert!(pdf_text.contains("(|         | more than one PDF table  |) Tj"));
    assert!(pdf_text.contains("(|         | line.                    |) Tj"));
}

#[test]
fn exports_pdf_local_image_metadata() {
    let document = Document::from_source("![Preview](preview.png \"System diagram\")")
        .with_path("/tmp/pdf-img/notes.md");
    let paths = pdf_image_paths(&document);
    assert_eq!(paths, vec!["/tmp/pdf-img/preview.png".to_owned()]);
    let files = vec![ImageFileInfo { path: paths[0].clone(), file: ImageFile::File { len: 2048 } }];
    let pdf_text = pdf_text(&document, &files);

    assert!(pdf_text.contains("([image] Preview: local /tmp/pdf-img/preview.png \\(2.0KiB\\)) Tj"));
    assert!(pdf_text.contains("(caption: System diagram) Tj"));
}

#[test]
fn exports_pdf_missing_and_remote_image_metadata() {
    let missing = Document::from_source("![Missing](missing.png)").with_path("/tmp/pdf-miss/notes.md");
    let remote = Document::from_source("![Remote](https://example.com/preview.png)");

    let missing_text = pdf_text(&missing, &[]);
    assert!(missing_text.contains("([image] Missing: missing /tmp/pdf-miss/missing.png) Tj"));

    assert!(pdf_image_paths(&remote).is_empty());
    let remote_text = pdf_text(&remote, &[]);
    assert!(remote_text.contains("([image] Remote: remote https://example.com/preview.png) Tj"));
}

#[test]
fn reports_paths_that_are_not_files() {
    let document = Document::from_source("![Folder](assets)").with_path("/tmp/docs/notes.md");
    let files = vec![ImageFileInfo { path: "/tmp/docs/assets".to_owned(), file: ImageFile::NotFile }];
    let text = pdf_text(&document, &files);
    assert!(text.contains("([image] Folder: not a file /tmp/docs/assets) Tj"));
}

#[test]
fn exports_pdf_heading_outlines() {
    let document = Document::from_source("# Intro\n\nBody.\n\n## Details\n\nMore.");
    let pdf_text = pdf_text(&document, &[]);

    assert!(pdf_text.contains("/Outlines"));
    assert!(pdf_text.contains("/PageMode /UseOutlines"));
    assert!(pdf_text.contains("/Title (Intro)"));
    assert!(pdf_text.contains("/Title (  Details)"));
    assert!(pdf_text.contains("/Dest [4 0 R /XYZ 54.0"));
}

#[test]
fn exports_pdf_with_multiple_pages_for_long_documents() {
    let source = format!(
        "# Long\n\n{}",
        (0..90)
            .map(|index| format!("Paragraph {index} with enough text to render."))
            .collect::<Vec<_>>()
            .join("\n\n")
    );
    let pdf_text = pdf_text(&Document::from_source(source), &[]);

    assert!(pdf_text.contains("/Count 3") || pdf_text.contains("/Count 4"));
}

#[test]
fn pdf_without_headings_has_no_outline() {
    let pdf_text = pdf_text(&Document::from_source("Just text."), &[]);
    assert!(pdf_text.contains("<< /Type /Catalog /Pages 2 0 R >>"));
    assert!(!pdf_text.contains("/Outlines"));
    assert!(pdf_text.contains("/Kids [4 0 R] /Count 1"));
}

#[test]
fn pdf_cross_reference_points_at_objects() {
    let pdf = export_pdf(&Document::from_source("# Title\n\nText."), &[]);
    let find = |needle: &[u8]| pdf.windows(needle.len()).position(|w| w == needle).expect("present");
    let xref_at = find(b"xref\n0 ");
    let tail = String::from_utf8(pdf[xref_at..].to_vec()).expect("ascii tail");
    let start: usize = tail[tail.find("startxref\n").unwrap() + 10..].lines().next().unwrap().parse().unwrap();
    assert_eq!(start, xref_at);
    let first: usize = tail.lines().nth(3).unwrap()[..10].parse().unwrap();
    assert_eq!(first, 15);
    assert!(pdf[first..].starts_with(b"1 0 obj\n"));
}

#[test]
fn pdf_escapes_non_ascii_text() {
    let text = pdf_text(&Document::from_source("Caf\u{e9} (x)"), &[]);
    assert!(text.contains("(Caf? \\(x\\)) Tj"));
}

#[test]
fn pdf_first_line_is_the_title() {
    let document = Document::from_source("# Heading\n\nBody.");
    let lines = pdf_lines(&document, &[]);
    assert_eq!(lines[0].text, "Heading");
    assert_eq!(lines[0].size, 24);
}

#[test]
fn wraps_words_at_width() {
    let text: Vec<char> = "one two three four".chars().collect();
    let wrapped: Vec<String> = wrap_text(&text, 9).into_iter().map(|l| l.into_iter().collect()).collect();
    assert_eq!(wrapped, vec!["one two".to_owned(), "three".to_owned(), "four".to_owned()]);
}

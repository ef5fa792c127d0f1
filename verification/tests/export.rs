use paperview::export::{export_html, ExportFormat};
use paperview::Document;

#[test]
fn exports_basic_html_document() {
    let document = Document::from_source(
        "# PaperView\n\nA **native** [reader](docs/index.md) with $x + y$.\n\n- [x] Done",
    );
    let html = export_html(&document);

    assert!(html.contains("<title>PaperView</title>"));
    assert!(html.contains("<main class=\"paper\">"));
    assert!(html.contains("<h1 id=\"paperview\">PaperView</h1>"));
    assert!(html.contains("<strong>native</strong>"));
    assert!(html.contains("<a href=\"docs/index.md\">reader</a>"));
    assert!(html.contains("<code class=\"math inline\">$x + y$</code>"));
    assert!(html.contains("<ul class=\"task-list\">"));
    assert!(html.contains("<li class=\"task-item\">"));
    assert!(html.contains("<input type=\"checkbox\" disabled checked> Done"));
}

#[test]
fn exports_paperview_html_theme_styles() {
    let document = Document::from_source(
        "# PaperView\n\n> Note\n\n```mermaid\ngraph TD\n  A-->B\n```\n\n$$ E = mc^2 $$",
    );
    let html = export_html(&document);

    assert!(html.contains("--shell-bg: #111318;"));
    assert!(html.contains("--paper-bg: #fdf8ef;"));
    assert!(html.contains(".source-panel"));
    assert!(html.contains(".flowchart-preview"));
    assert!(html.contains("<blockquote class=\"callout\">"));
    assert!(html.contains(
        "<pre class=\"source-panel diagram-panel\"><code class=\"language-mermaid\">"
    ));
    assert!(html.contains("<pre class=\"math display\"><code>"));
}

#[test]
fn exports_mermaid_flowchart_preview_html() {
    let document =
        Document::from_source("```mermaid\nflowchart LR\n  A[Start] -- yes --> B{Done}\n```");
    let html = export_html(&document);

    assert!(html.contains("<section class=\"flowchart-preview\">"));
    assert!(html.contains("flowchart preview - left to right"));
    assert!(html.contains("<span class=\"flowchart-node\">Start</span>"));
    assert!(html.contains("<span class=\"flowchart-label\">yes</span>"));
    assert!(html.contains("<span class=\"flowchart-node\">Done</span>"));
    assert!(html.contains("<pre class=\"source-panel diagram-panel\"><code class=\"language-mermaid\">flowchart LR"));
}

#[test]
fn exports_unsupported_mermaid_as_source_only() {
    let document = Document::from_source("```mermaid\nsequenceDiagram\nA->>B: Hello\n```");
    let html = export_html(&document);

    assert!(!html.contains("<section class=\"flowchart-preview\">"));
    assert!(html.contains("<pre class=\"source-panel diagram-panel\"><code class=\"language-mermaid\">sequenceDiagram"));
}

#[test]
fn escapes_html_text_and_attributes() {
    let document = Document::from_source("# PaperView & Friends\n\n[link](docs/\"quote\".md)");
    let html = export_html(&document);

    assert!(html.contains("<h1 id=\"paperview-friends\">PaperView &amp; Friends</h1>"));
    assert!(html.contains("href=\"docs/&quot;quote&quot;.md\""));
}

#[test]
fn exports_duplicate_heading_anchors() {
    let document = Document::from_source("# Intro\n\n## Details\n\n### Details");
    let html = export_html(&document);

    assert!(html.contains("<h1 id=\"intro\">Intro</h1>"));
    assert!(html.contains("<h2 id=\"details\">Details</h2>"));
    assert!(html.contains("<h3 id=\"details-2\">Details</h3>"));
}

#[test]
fn parses_export_formats() {
    assert_eq!("html".parse::<ExportFormat>(), Ok(ExportFormat::Html));
    assert_eq!("PDF".parse::<ExportFormat>(), Ok(ExportFormat::Pdf));
    assert!("docx".parse::<ExportFormat>().is_err());
}

#[test]
fn export_format_names_and_errors() {
    assert_eq!(ExportFormat::parse(" Html "), Ok(ExportFormat::Html));
    assert_eq!(ExportFormat::Pdf.extension(), "pdf");
    let error = ExportFormat::parse("docx").unwrap_err();
    assert_eq!(error.message(), "unsupported export format: docx (supported: html, pdf)");
}

#[test]
fn exports_tables_images_and_rules() {
    let document = Document::from_source(
        "| A | B |\n| :-- | --: |\n| x & z | y |\n\n![Alt](pic.png \"T\")\n\n---\n",
    );
    let html = export_html(&document);
    assert!(html.contains("<table class=\"data-table\">\n<thead><tr><th class=\"align-left\">A</th><th class=\"align-right\">B</th></tr></thead>\n"));
    assert!(html.contains("<tbody>\n<tr><td class=\"align-left\">x &amp; z</td><td class=\"align-right\">y</td></tr>\n</tbody>\n</table>\n"));
    assert!(html.contains("<figure class=\"media-block\"><img src=\"pic.png\" alt=\"Alt\" title=\"T\"><figcaption>Alt</figcaption></figure>\n"));
    assert!(html.contains("<hr>\n"));
    assert!(html.ends_with("</main>\n</body>\n</html>\n"));
}

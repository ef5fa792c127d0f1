use paperview::parser::{
    parse_markdown, Block, HeadingLevel, InlineSpan, ListItem, TableAlignment, TocItem,
};

fn text_span(text: &str) -> InlineSpan {
    InlineSpan {
        text: text.to_owned(),
        strong: false,
        emphasis: false,
        code: false,
        math: false,
        link: None,
    }
}

fn list_item(content: Vec<InlineSpan>) -> ListItem {
    ListItem {
        checked: None,
        source_line: None,
        content,
    }
}

fn task_item_at_line(checked: bool, source_line: usize, content: Vec<InlineSpan>) -> ListItem {
    ListItem {
        checked: Some(checked),
        source_line: Some(source_line),
        content,
    }
}

#[test]
fn parses_headings_and_paragraphs() {
    let parsed = parse_markdown("# PaperView\n\nNative Markdown viewer.");

    assert_eq!(
        parsed.blocks,
        vec![
            Block::Heading {
                level: HeadingLevel::H1,
                spans: vec![text_span("PaperView")]
            },
            Block::Paragraph(vec![text_span("Native Markdown viewer.")])
        ]
    );
}

#[test]
fn exposes_first_h1_as_title() {
    let parsed = parse_markdown("## Preface\n\n# PaperView");

    assert_eq!(parsed.title(), Some("PaperView".to_owned()));
}

#[test]
fn preserves_heading_inline_spans() {
    let parsed = parse_markdown("# **PaperView** [docs](docs/index.md) `reader`");

    assert_eq!(
        parsed.blocks,
        vec![Block::Heading {
            level: HeadingLevel::H1,
            spans: vec![
                InlineSpan {
                    text: "PaperView".to_owned(),
                    strong: true,
                    emphasis: false,
                    code: false,
                    math: false,
                    link: None
                },
                text_span(" "),
                InlineSpan {
                    text: "docs".to_owned(),
                    strong: false,
                    emphasis: false,
                    code: false,
                    math: false,
                    link: Some("docs/index.md".to_owned())
                },
                text_span(" "),
                InlineSpan {
                    text: "reader".to_owned(),
                    strong: false,
                    emphasis: false,
                    code: true,
                    math: false,
                    link: None
                }
            ]
        }]
    );

    assert_eq!(parsed.title(), Some("PaperView docs reader".to_owned()));
}

#[test]
fn parses_common_block_elements() {
    let parsed = parse_markdown(
        "> Quiet reader\n\n- Fast\n- Native\n\n```rust\nfn main() {}\n```\n\n---",
    );

    assert_eq!(
        parsed.blocks,
        vec![
            Block::BlockQuote(vec![text_span("Quiet reader")]),
            Block::List {
                ordered: false,
                items: vec![
                    list_item(vec![text_span("Fast")]),
                    list_item(vec![text_span("Native")])
                ]
            },
            Block::CodeBlock {
                language: Some("rust".to_owned()),
                code: "fn main() {}\n".to_owned()
            },
            Block::Rule
        ]
    );
}

#[test]
fn preserves_paragraph_inline_spans() {
    let parsed =
        parse_markdown("A **bold** and *quiet* [link](https://example.com) with `code`.");

    assert_eq!(
        parsed.blocks,
        vec![Block::Paragraph(vec![
            text_span("A "),
            InlineSpan {
                text: "bold".to_owned(),
                strong: true,
                emphasis: false,
                code: false,
                math: false,
                link: None
            },
            text_span(" and "),
            InlineSpan {
                text: "quiet".to_owned(),
                strong: false,
                emphasis: true,
                code: false,
                math: false,
                link: None
            },
            text_span(" "),
            InlineSpan {
                text: "link".to_owned(),
                strong: false,
                emphasis: false,
                code: false,
                math: false,
                link: Some("https://example.com".to_owned())
            },
            text_span(" with "),
            InlineSpan {
                text: "code".to_owned(),
                strong: false,
                emphasis: false,
                code: true,
                math: false,
                link: None
            },
            text_span(".")
        ])]
    );
}

#[test]
fn preserves_list_and_blockquote_inline_spans() {
    let parsed = parse_markdown(
        "> A **quiet** [quote](https://example.com)\n\n- *Fast* `reader`\n- Plain",
    );

    assert_eq!(
        parsed.blocks,
        vec![
            Block::BlockQuote(vec![
                text_span("A "),
                InlineSpan {
                    text: "quiet".to_owned(),
                    strong: true,
                    emphasis: false,
                    code: false,
                    math: false,
                    link: None
                },
                text_span(" "),
                InlineSpan {
                    text: "quote".to_owned(),
                    strong: false,
                    emphasis: false,
                    code: false,
                    math: false,
                    link: Some("https://example.com".to_owned())
                }
            ]),
            Block::List {
                ordered: false,
                items: vec![
                    list_item(vec![
                        InlineSpan {
                            text: "Fast".to_owned(),
                            strong: false,
                            emphasis: true,
                            code: false,
                            math: false,
                            link: None
                        },
                        text_span(" "),
                        InlineSpan {
                            text: "reader".to_owned(),
                            strong: false,
                            emphasis: false,
                            code: true,
                            math: false,
                            link: None
                        }
                    ]),
                    list_item(vec![text_span("Plain")])
                ]
            }
        ]
    );
}

#[test]
fn preserves_task_list_markers() {
    let parsed = parse_markdown("- [x] Done\n- [ ] Todo\n- Plain");

    assert_eq!(
        parsed.blocks,
        vec![Block::List {
            ordered: false,
            items: vec![
                task_item_at_line(true, 0, vec![text_span("Done")]),
                task_item_at_line(false, 1, vec![text_span("Todo")]),
                list_item(vec![text_span("Plain")])
            ]
        }]
    );
}

#[test]
fn preserves_task_list_source_lines() {
    let parsed = parse_markdown("Intro\n\n- [ ] First\n- [x] Second\n\n1. [X] Ordered");

    assert_eq!(
        parsed.blocks,
        vec![
            Block::Paragraph(vec![text_span("Intro")]),
            Block::List {
                ordered: false,
                items: vec![
                    task_item_at_line(false, 2, vec![text_span("First")]),
                    task_item_at_line(true, 3, vec![text_span("Second")])
                ]
            },
            Block::List {
                ordered: true,
                items: vec![task_item_at_line(true, 5, vec![text_span("Ordered")])]
            }
        ]
    );
}

#[test]
fn parses_mermaid_fences_as_diagram_blocks() {
    let parsed =
        parse_markdown("```mermaid\ngraph TD\n  A-->B\n```\n\n```rust\nfn main() {}\n```");

    assert_eq!(
        parsed.blocks,
        vec![
            Block::Diagram {
                language: "mermaid".to_owned(),
                source: "graph TD\n  A-->B".to_owned()
            },
            Block::CodeBlock {
                language: Some("rust".to_owned()),
                code: "fn main() {}\n".to_owned()
            }
        ]
    );
}

#[test]
fn parses_markdown_tables() {
    let parsed = parse_markdown(
        "| Feature | Status |\n| :--- | ---: |\n| GUI | Done |\n| TUI | In progress |",
    );

    assert_eq!(
        parsed.blocks,
        vec![Block::Table {
            alignments: vec![TableAlignment::Left, TableAlignment::Right],
            header: vec![vec![text_span("Feature")], vec![text_span("Status")]],
            rows: vec![
                vec![vec![text_span("GUI")], vec![text_span("Done")]],
                vec![vec![text_span("TUI")], vec![text_span("In progress")]]
            ]
        }]
    );
}

#[test]
fn preserves_table_cell_inline_spans() {
    let parsed =
        parse_markdown("| Feature | Link |\n| --- | --- |\n| **GUI** | [docs](docs/gui.md) |");

    assert_eq!(
        parsed.blocks,
        vec![Block::Table {
            alignments: vec![TableAlignment::Unaligned, TableAlignment::Unaligned],
            header: vec![vec![text_span("Feature")], vec![text_span("Link")]],
            rows: vec![vec![
                vec![InlineSpan {
                    text: "GUI".to_owned(),
                    strong: true,
                    emphasis: false,
                    code: false,
                    math: false,
                    link: None
                }],
                vec![InlineSpan {
                    text: "docs".to_owned(),
                    strong: false,
                    emphasis: false,
                    code: false,
                    math: false,
                    link: Some("docs/gui.md".to_owned())
                }]
            ]]
        }]
    );
}

#[test]
fn parses_standalone_images_as_blocks() {
    let parsed = parse_markdown("![Architecture diagram](docs/arch.png \"Architecture\")");

    assert_eq!(
        parsed.blocks,
        vec![Block::Image {
            alt: "Architecture diagram".to_owned(),
            url: "docs/arch.png".to_owned(),
            title: "Architecture".to_owned()
        }]
    );
}

#[test]
fn preserves_inline_images_inside_paragraphs() {
    let parsed = parse_markdown("See ![Architecture](docs/arch.png) for details.");

    assert_eq!(
        parsed.blocks,
        vec![Block::Paragraph(vec![text_span(
            "See ![Architecture](docs/arch.png) for details."
        )])]
    );
}

#[test]
fn derives_toc_from_heading_blocks() {
    let parsed = parse_markdown("# Intro\n\nText.\n\n## Details\n\n### Details!");

    assert_eq!(
        parsed.toc(),
        vec![
            TocItem {
                level: HeadingLevel::H1,
                title: "Intro".to_owned(),
                slug: "intro".to_owned(),
                block_index: 0
            },
            TocItem {
                level: HeadingLevel::H2,
                title: "Details".to_owned(),
                slug: "details".to_owned(),
                block_index: 2
            },
            TocItem {
                level: HeadingLevel::H3,
                title: "Details!".to_owned(),
                slug: "details-2".to_owned(),
                block_index: 3
            }
        ]
    );
}

#[test]
fn inline_math_becomes_a_math_span() {
    let parsed = parse_markdown("Before $x + y$.");

    assert_eq!(
        parsed.blocks,
        vec![Block::Paragraph(vec![
            text_span("Before "),
            InlineSpan {
                text: "$x + y$".to_owned(),
                strong: false,
                emphasis: false,
                code: false,
                math: true,
                link: None
            },
            text_span(".")
        ])]
    );
}

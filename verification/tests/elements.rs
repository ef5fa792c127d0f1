use paperview::parser::elements::diagram::{
    flowchart_preview, is_mermaid, FlowchartDirection, FlowchartEdge, FlowchartPreview,
};
use paperview::parser::elements::image::{dimensions_from_bytes, ImageDimensions};
use paperview::parser::elements::math::readable_preview;
use paperview::parser::elements::table::cell_text;

#[test]
fn parses_simple_flowchart_edges() {
    let preview = flowchart_preview("graph TD\n  A[Start] --> B{Decision}\n  B --> C[Done]")
        .expect("flowchart preview");

    assert_eq!(
        preview,
        FlowchartPreview {
            direction: FlowchartDirection::TopDown,
            edges: vec![
                FlowchartEdge {
                    from: "Start".to_owned(),
                    to: "Decision".to_owned(),
                    label: None
                },
                FlowchartEdge {
                    from: "B".to_owned(),
                    to: "Done".to_owned(),
                    label: None
                }
            ]
        }
    );
}

#[test]
fn parses_labeled_flowchart_edges() {
    let preview = flowchart_preview(
        "flowchart LR\n  A -- yes --> B\n  B -. maybe .-> C\n  C ==>|fast| D[Done]",
    )
    .expect("flowchart preview");

    assert_eq!(
        preview,
        FlowchartPreview {
            direction: FlowchartDirection::LeftRight,
            edges: vec![
                FlowchartEdge {
                    from: "A".to_owned(),
                    to: "B".to_owned(),
                    label: Some("yes".to_owned())
                },
                FlowchartEdge {
                    from: "B".to_owned(),
                    to: "C".to_owned(),
                    label: Some("maybe".to_owned())
                },
                FlowchartEdge {
                    from: "C".to_owned(),
                    to: "Done".to_owned(),
                    label: Some("fast".to_owned())
                }
            ]
        }
    );
}

#[test]
fn parses_common_flowchart_node_shapes_and_comments() {
    let preview = flowchart_preview(
        "flowchart TD;\n  %% startup path\n  A((Start)):::entry --> B[/Input/] %% inline note\n  B --> C[(Store)]\n  C --> D{{Done}}",
    )
    .expect("flowchart preview");

    assert_eq!(
        preview,
        FlowchartPreview {
            direction: FlowchartDirection::TopDown,
            edges: vec![
                FlowchartEdge {
                    from: "Start".to_owned(),
                    to: "Input".to_owned(),
                    label: None
                },
                FlowchartEdge {
                    from: "B".to_owned(),
                    to: "Store".to_owned(),
                    label: None
                },
                FlowchartEdge {
                    from: "C".to_owned(),
                    to: "Done".to_owned(),
                    label: None
                }
            ]
        }
    );
}

#[test]
fn ignores_unsupported_mermaid_diagrams() {
    assert_eq!(flowchart_preview("sequenceDiagram\nA->>B: Hello"), None);
    assert_eq!(flowchart_preview("graph TD\n  A"), None);
}

#[test]
fn flowchart_directions_and_plain_arrows() {
    let preview = flowchart_preview("graph bt\nA --- B\nB -->|go| C\nX ~~~ Y").expect("preview");
    assert_eq!(preview.direction, FlowchartDirection::BottomTop);
    assert_eq!(preview.edges.len(), 3);
    assert_eq!(preview.edges[1].label.as_deref(), Some("go"));
    assert_eq!(flowchart_preview("graph XY\nA --> B"), None);
    assert_eq!(flowchart_preview("graph\nA --> B").map(|p| p.direction), Some(FlowchartDirection::TopDown));
    assert!(is_mermaid(Some(" Mermaid extra")));
    assert!(!is_mermaid(Some("rust")));
}

#[test]
fn reads_gif_jpeg_and_webp_dimensions_from_bytes() {
    let gif = [b'G', b'I', b'F', b'8', b'9', b'a', 0x40, 0x01, 0xf0, 0x00];
    let jpeg = [
        0xff, 0xd8, 0xff, 0xe0, 0x00, 0x04, 0x00, 0x00, 0xff, 0xc0, 0x00, 0x11, 0x08, 0x00,
        0xf0, 0x01, 0x40, 0x03, 0x01, 0x11, 0x00, 0x02, 0x11, 0x00, 0x03, 0x11, 0x00,
    ];
    let webp = [
        b'R', b'I', b'F', b'F', 22, 0, 0, 0, b'W', b'E', b'B', b'P', b'V', b'P', b'8', b'X',
        10, 0, 0, 0, 0, 0, 0, 0, 0x3f, 0x01, 0, 0xef, 0, 0,
    ];

    assert_eq!(
        dimensions_from_bytes(&gif),
        Some(ImageDimensions {
            width: 320,
            height: 240
        })
    );
    assert_eq!(
        dimensions_from_bytes(&jpeg),
        Some(ImageDimensions {
            width: 320,
            height: 240
        })
    );
    assert_eq!(
        dimensions_from_bytes(&webp),
        Some(ImageDimensions {
            width: 320,
            height: 240
        })
    );
    assert_eq!(dimensions_from_bytes(b"not an image"), None);
}

#[test]
fn reads_png_dimensions_from_bytes() {
    let png = [
        0x89, b'P', b'N', b'G', b'\r', b'\n', 0x1a, b'\n', 0, 0, 0, 13, b'I', b'H', b'D', b'R',
        0, 0, 1, 0x40, 0, 0, 0, 0xf0, 8, 2, 0, 0, 0,
    ];
    let dimensions = dimensions_from_bytes(&png).expect("png dimensions");
    assert_eq!(dimensions, ImageDimensions { width: 320, height: 240 });
    assert_eq!(dimensions.label(), "320 x 240 px");
}

#[test]
fn reads_lossless_webp_dimensions() {
    let mut webp = vec![b'R', b'I', b'F', b'F', 0, 0, 0, 0, b'W', b'E', b'B', b'P', b'V', b'P', b'8', b'L'];
    webp.extend_from_slice(&[0, 0, 0, 0, 0x2f, 0x3f, 0xc1, 0x3b, 0x00]);
    webp.extend_from_slice(&[0; 5]);
    // width - 1 = 0x13f = 319, height - 1 = 0xef = 239
    assert_eq!(dimensions_from_bytes(&webp), Some(ImageDimensions { width: 320, height: 240 }));
}

#[test]
fn renders_readable_preview_for_common_math_tokens() {
    assert_eq!(
        readable_preview(r"\frac{\alpha_1}{x^2} + \sqrt{y} \to \infty"),
        Some("(α₁) / (x²) + √(y) → ∞".to_owned())
    );
}

#[test]
fn omits_preview_when_source_is_already_plain() {
    assert_eq!(readable_preview("E = mc"), None);
}

#[test]
fn nested_fractions_and_blank_math() {
    assert_eq!(readable_preview(r"\frac{\frac{1}{2}}{3}"), Some("((1) / (2)) / (3)".to_owned()));
    assert_eq!(readable_preview("   "), None);
    assert_eq!(readable_preview(r"\frac{1}"), Some(r"\frac1".to_owned()));
    assert_eq!(cell_text("  a \n b  "), "a b");
}

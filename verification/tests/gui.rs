use paperview::gui::{
    empty_state_text, header_controls, header_subtitle, hover_left_status, last_slide, next_slide,
    previous_slide, search_summary, split_label, startup_action, window_layout, window_title,
    workspace_search_summary, ReaderBody, StartupAction, Status,
};
use paperview::{presentation_deck, Document, SplitViewState};

#[test]
fn empty_window_title_is_app_name() {
    assert_eq!(window_title(None), "PaperView");
    assert_eq!(window_title(Some(&Document::from_source("# Notes"))), "Notes - PaperView");
}

#[test]
fn summarizes_search_position() {
    assert_eq!(search_summary("  ", Some(0), 3), "0/0");
    assert_eq!(search_summary("needle", None, 3), "0/0");
    assert_eq!(search_summary("needle", Some(1), 3), "2/3");
}

#[test]
fn summarizes_workspace_search() {
    assert_eq!(workspace_search_summary(true, "x", 0, false), "Searching current workspace");
    assert_eq!(workspace_search_summary(false, " ", 4, false), "Search files with ripgrep");
    assert_eq!(workspace_search_summary(false, "x", 0, false), "No matches");
    assert_eq!(workspace_search_summary(false, "x", 0, true), "0 matches");
    assert_eq!(workspace_search_summary(false, "x", 1, false), "1 match");
    assert_eq!(workspace_search_summary(false, "x", 12, false), "12 matches");
}

#[test]
fn slide_steps_stay_in_deck() {
    assert_eq!(next_slide(0, 3), 1);
    assert_eq!(next_slide(2, 3), 2);
    assert_eq!(previous_slide(1), 0);
    assert_eq!(previous_slide(0), 0);
    assert_eq!(last_slide(3), 2);
    assert_eq!(last_slide(0), 0);
}

#[test]
fn labels_statuses() {
    assert_eq!(Status::Empty.label(), "empty");
    assert_eq!(Status::Loaded("a.md".to_owned()).label(), "loaded");
    assert_eq!(
        Status::CompiledTex { source: "a.tex".to_owned(), output: "a.pdf".to_owned() }.label(),
        "compiled_tex"
    );
    assert_eq!(Status::Error("x".to_owned()).label(), "error");
}

#[test]
fn header_subtitle_shows_slide_or_status() {
    let deck = presentation_deck("# One\n\n---\n\n# Two");
    assert_eq!(header_subtitle(Some(&deck), 1, &Status::Empty, "h.toml"), "Slide 2/2 - Two");
    assert_eq!(header_subtitle(Some(&deck), 5, &Status::Empty, "h.toml"), "Slide 6/2 - Untitled Slide");
    assert_eq!(header_subtitle(None, 0, &Status::Empty, "h.toml"), "No document open - h.toml");
    assert_eq!(header_subtitle(None, 0, &Status::Loaded("a.md".to_owned()), "h"), "a.md");
    assert_eq!(header_subtitle(None, 0, &Status::CompilingTex("a.tex".to_owned()), "h"), "Compiling a.tex");
    assert_eq!(
        header_subtitle(
            None,
            0,
            &Status::CompiledTex { source: "a.tex".to_owned(), output: "a.pdf".to_owned() },
            "h"
        ),
        "Compiled a.tex -> a.pdf"
    );
    assert_eq!(header_subtitle(None, 0, &Status::Hovering("b.md".to_owned()), "h"), "Drop to open b.md");
    assert_eq!(header_subtitle(None, 0, &Status::Error("boom".to_owned()), "h"), "boom");
}

#[test]
fn split_label_shows_widths_when_split() {
    let mut split = SplitViewState::new(60);
    assert_eq!(split_label(&split), "Split");
    split.toggle(Some(0), 2);
    assert_eq!(split_label(&split), "Split 60/40");
}

#[test]
fn header_controls_follow_state() {
    let none = header_controls(0, false, false, false, false, None, 0);
    assert!(!none.split_enabled && !none.edit_enabled && !none.present_enabled && !none.save_enabled);
    let editing = header_controls(2, true, true, true, true, None, 0);
    assert!(editing.split_enabled && editing.split_active && editing.save_enabled && editing.edit_enabled);
    let presenting = header_controls(1, true, false, false, false, Some(3), 1);
    assert!(presenting.presenting && presenting.previous_slide_enabled && presenting.next_slide_enabled);
    let last = header_controls(1, true, false, false, false, Some(3), 2);
    assert!(last.previous_slide_enabled && !last.next_slide_enabled);
}

#[test]
fn window_layout_picks_body_and_tab_bar() {
    assert_eq!(window_layout(false, true, true, true, true), (ReaderBody::Empty, false));
    assert_eq!(window_layout(true, true, true, false, false), (ReaderBody::Editing, false));
    assert_eq!(window_layout(true, false, true, false, true), (ReaderBody::Presenting, false));
    assert_eq!(window_layout(true, false, false, true, true), (ReaderBody::Zen, false));
    assert_eq!(window_layout(true, false, false, false, true), (ReaderBody::Split, true));
    assert_eq!(window_layout(true, false, false, false, false), (ReaderBody::Single, true));
}

#[test]
fn empty_state_describes_status() {
    assert_eq!(
        empty_state_text(&Status::Empty),
        (
            "Open a Markdown file".to_owned(),
            "Launch with paperview-gui <file> to preview the native reader shell.".to_owned()
        )
    );
    assert_eq!(
        empty_state_text(&Status::Error("bad".to_owned())),
        ("Could not open document".to_owned(), "bad".to_owned())
    );
    assert_eq!(empty_state_text(&Status::Loaded("a".to_owned())), ("Document loaded".to_owned(), String::new()));
}

#[test]
fn startup_action_from_arguments() {
    assert_eq!(startup_action(&[]), StartupAction::Empty);
    assert_eq!(startup_action(&["a.md".to_owned()]), StartupAction::OpenDocument("a.md".to_owned()));
    assert_eq!(startup_action(&["paper.TEX".to_owned()]), StartupAction::CompileTex("paper.TEX".to_owned()));
    assert_eq!(
        startup_action(&["a".to_owned(), "b".to_owned()]),
        StartupAction::Usage("usage: paperview-gui [file]".to_owned())
    );
}

#[test]
fn hover_leaving_restores_status() {
    assert_eq!(hover_left_status(Status::Hovering("x".to_owned()), Some("a.md")), Status::Loaded("a.md".to_owned()));
    assert_eq!(hover_left_status(Status::Hovering("x".to_owned()), None), Status::Empty);
    assert_eq!(hover_left_status(Status::Error("e".to_owned()), Some("a.md")), Status::Error("e".to_owned()));
}

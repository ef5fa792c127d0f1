use paperview::shortcuts::{runtime_event, KeyPress, NamedKey, ReaderCommand, WindowEvent};
use paperview::split_view::SplitResize;

fn character(c: char, command: bool, shift: bool) -> WindowEvent {
    WindowEvent::KeyPressed(KeyPress {
        named: None,
        latin: Some(c),
        command,
        shift,
        any_modifier: command || shift,
        repeat: false,
    })
}

fn named(key: NamedKey) -> WindowEvent {
    WindowEvent::KeyPressed(KeyPress {
        named: Some(key),
        latin: None,
        command: false,
        shift: false,
        any_modifier: false,
        repeat: false,
    })
}

#[test]
fn command_shift_f_maps_to_zen_toggle() {
    assert!(matches!(runtime_event(character('f', true, true)), Some(ReaderCommand::ToggleZen)));
}

#[test]
fn command_backslash_maps_to_split_toggle() {
    assert!(matches!(runtime_event(character('\\', true, false)), Some(ReaderCommand::ToggleSplit)));
}

#[test]
fn command_e_maps_to_edit_toggle() {
    assert!(matches!(runtime_event(character('e', true, false)), Some(ReaderCommand::ToggleEdit)));
}

#[test]
fn command_p_maps_to_presentation_toggle() {
    assert!(matches!(runtime_event(character('p', true, false)), Some(ReaderCommand::TogglePresentation)));
}

#[test]
fn command_s_maps_to_edit_save() {
    assert!(matches!(runtime_event(character('s', true, false)), Some(ReaderCommand::SaveEdit)));
}

#[test]
fn command_brackets_map_to_split_resize() {
    assert!(matches!(
        runtime_event(character(']', true, false)),
        Some(ReaderCommand::ResizeSplit(SplitResize::GrowPrimary))
    ));
    assert!(matches!(
        runtime_event(character('[', true, false)),
        Some(ReaderCommand::ResizeSplit(SplitResize::ShrinkPrimary))
    ));
}

#[test]
fn presentation_keys_map_to_slide_navigation() {
    assert!(matches!(runtime_event(named(NamedKey::ArrowRight)), Some(ReaderCommand::PresentationNext)));
    assert!(matches!(runtime_event(named(NamedKey::Space)), Some(ReaderCommand::PresentationNext)));
    assert!(matches!(runtime_event(named(NamedKey::ArrowLeft)), Some(ReaderCommand::PresentationPrevious)));
    assert!(matches!(runtime_event(named(NamedKey::Home)), Some(ReaderCommand::PresentationFirst)));
    assert!(matches!(runtime_event(named(NamedKey::End)), Some(ReaderCommand::PresentationLast)));
    assert!(matches!(runtime_event(named(NamedKey::Escape)), Some(ReaderCommand::PresentationExit)));
}

#[test]
fn presentation_letter_keys_map_to_slide_navigation() {
    assert!(matches!(runtime_event(character('n', false, false)), Some(ReaderCommand::PresentationNext)));
    assert!(matches!(runtime_event(character('b', false, false)), Some(ReaderCommand::PresentationPrevious)));
}

#[test]
fn repeated_and_modified_keys_are_ignored() {
    let mut held = KeyPress { named: None, latin: Some('e'), command: true, shift: false, any_modifier: true, repeat: true };
    assert_eq!(runtime_event(WindowEvent::KeyPressed(held)), None);
    held.repeat = false;
    held.command = false;
    held.latin = Some('n');
    assert_eq!(runtime_event(WindowEvent::KeyPressed(held)), None);
    assert_eq!(runtime_event(character('x', false, false)), None);
    assert_eq!(runtime_event(named(NamedKey::Other)), None);
    assert!(matches!(runtime_event(character('E', true, true)), Some(ReaderCommand::ToggleEdit)));
}

#[test]
fn window_events_map_to_file_and_drag_commands() {
    assert_eq!(
        runtime_event(WindowEvent::FileDropped("a.md".to_owned())),
        Some(ReaderCommand::OpenDroppedFiles(vec!["a.md".to_owned()]))
    );
    assert_eq!(
        runtime_event(WindowEvent::FileHovered("a.md".to_owned())),
        Some(ReaderCommand::FileHovered("a.md".to_owned()))
    );
    assert_eq!(runtime_event(WindowEvent::FilesHoveredLeft), Some(ReaderCommand::FilesHoveredLeft));
    assert_eq!(runtime_event(WindowEvent::LeftButtonReleased), Some(ReaderCommand::SplitDragEnded));
    assert_eq!(runtime_event(WindowEvent::Other), None);
}

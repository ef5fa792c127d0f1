use paperview::terminal::ReaderFocus;
use paperview::terminal_keys::{
    key_target, picker_command, terminal_command, KeyTarget, PickerCommand, TerminalCommand, TerminalKey,
};

fn reader(key: TerminalKey, focus: ReaderFocus) -> TerminalCommand {
    terminal_command(KeyTarget::Reader, focus, key, false, true)
}

#[test]
fn prompts_and_editor_take_keys_first() {
    assert_eq!(key_target(true, true, true, true), KeyTarget::SearchPrompt);
    assert_eq!(key_target(false, true, true, true), KeyTarget::OpenPathPrompt);
    assert_eq!(key_target(false, false, true, true), KeyTarget::Editor);
    assert_eq!(key_target(false, false, false, true), KeyTarget::Slides);
    assert_eq!(key_target(false, false, false, false), KeyTarget::Reader);
}

#[test]
fn prompt_keys_edit_the_input() {
    let focus = ReaderFocus::Reader;
    assert_eq!(terminal_command(KeyTarget::SearchPrompt, focus, TerminalKey::Char('q'), false, true), TerminalCommand::PromptType('q'));
    assert_eq!(terminal_command(KeyTarget::OpenPathPrompt, focus, TerminalKey::Enter, false, true), TerminalCommand::SubmitPrompt);
    assert_eq!(terminal_command(KeyTarget::SearchPrompt, focus, TerminalKey::Esc, false, true), TerminalCommand::CancelPrompt);
    assert_eq!(terminal_command(KeyTarget::SearchPrompt, focus, TerminalKey::Backspace, false, true), TerminalCommand::PromptBackspace);
    assert_eq!(terminal_command(KeyTarget::SearchPrompt, focus, TerminalKey::Tab, false, true), TerminalCommand::Ignore);
}

#[test]
fn editor_keys_follow_modifiers() {
    let focus = ReaderFocus::Reader;
    let edit = |key, control, plain| terminal_command(KeyTarget::Editor, focus, key, control, plain);
    assert_eq!(edit(TerminalKey::Char('S'), true, false), TerminalCommand::SaveEdit);
    assert_eq!(edit(TerminalKey::Char('p'), true, false), TerminalCommand::TogglePreview);
    assert_eq!(edit(TerminalKey::Down, true, false), TerminalCommand::ScrollPreview(1));
    assert_eq!(edit(TerminalKey::PageUp, true, false), TerminalCommand::ScrollPreviewPage(-1));
    assert_eq!(edit(TerminalKey::Char('a'), true, false), TerminalCommand::Ignore);
    assert_eq!(edit(TerminalKey::Char('A'), false, true), TerminalCommand::InsertChar('A'));
    assert_eq!(edit(TerminalKey::Char('a'), false, false), TerminalCommand::Ignore);
    assert_eq!(edit(TerminalKey::Enter, false, true), TerminalCommand::InsertChar('\n'));
    assert_eq!(edit(TerminalKey::Up, false, true), TerminalCommand::CursorVertical(-1));
    assert_eq!(edit(TerminalKey::Home, false, true), TerminalCommand::CursorLineStart);
    assert_eq!(edit(TerminalKey::Esc, false, true), TerminalCommand::LeaveEditor);
}

#[test]
fn slide_keys_move_between_slides() {
    let focus = ReaderFocus::Reader;
    let slide = |key| terminal_command(KeyTarget::Slides, focus, key, false, true);
    assert_eq!(slide(TerminalKey::Char(' ')), TerminalCommand::NextSlide);
    assert_eq!(slide(TerminalKey::Right), TerminalCommand::NextSlide);
    assert_eq!(slide(TerminalKey::Char('b')), TerminalCommand::PreviousSlide);
    assert_eq!(slide(TerminalKey::Home), TerminalCommand::FirstSlide);
    assert_eq!(slide(TerminalKey::End), TerminalCommand::LastSlide);
    assert_eq!(slide(TerminalKey::Char('q')), TerminalCommand::ExitSlides);
    assert_eq!(slide(TerminalKey::Esc), TerminalCommand::ExitSlides);
    assert_eq!(slide(TerminalKey::Char('G')), TerminalCommand::SlideBottom);
}

#[test]
fn reader_keys_depend_on_focus() {
    assert_eq!(reader(TerminalKey::Char('j'), ReaderFocus::Reader), TerminalCommand::ScrollDown);
    assert_eq!(reader(TerminalKey::Down, ReaderFocus::Toc), TerminalCommand::NextToc);
    assert_eq!(reader(TerminalKey::Char('k'), ReaderFocus::Toc), TerminalCommand::PreviousToc);
    assert_eq!(reader(TerminalKey::Char('g'), ReaderFocus::Reader), TerminalCommand::ScrollTop);
    assert_eq!(reader(TerminalKey::Char('g'), ReaderFocus::Toc), TerminalCommand::Ignore);
    assert_eq!(reader(TerminalKey::Char('G'), ReaderFocus::Reader), TerminalCommand::ScrollBottom);
    assert_eq!(reader(TerminalKey::Char('\\'), ReaderFocus::Reader), TerminalCommand::ToggleSplit);
    assert_eq!(reader(TerminalKey::Char(' '), ReaderFocus::Reader), TerminalCommand::ToggleTask);
    assert_eq!(reader(TerminalKey::Tab, ReaderFocus::Reader), TerminalCommand::ToggleFocus);
    assert_eq!(reader(TerminalKey::Esc, ReaderFocus::Reader), TerminalCommand::Quit);
    assert_eq!(reader(TerminalKey::Char('y'), ReaderFocus::Reader), TerminalCommand::Ignore);
}

#[test]
fn picker_keys() {
    assert_eq!(picker_command(TerminalKey::Char('q'), false), PickerCommand::Quit);
    assert_eq!(picker_command(TerminalKey::Down, false), PickerCommand::Next);
    assert_eq!(picker_command(TerminalKey::Char('k'), false), PickerCommand::Previous);
    assert_eq!(picker_command(TerminalKey::Enter, false), PickerCommand::Open);
    assert_eq!(picker_command(TerminalKey::Char('p'), true), PickerCommand::Prune);
    assert_eq!(picker_command(TerminalKey::Char('p'), false), PickerCommand::Ignore);
}

use vstd::prelude::*;

use crate::terminal::ReaderFocus;

verus! {

/// A key press in the terminal reader.
#[derive(Debug, Clone, Copy, PartialEq, Eq, Structural)]
pub enum TerminalKey {
    Char(char),
    Enter,
    Esc,
    Backspace,
    Delete,
    Tab,
    Left,
    Right,
    Up,
    Down,
    PageUp,
    PageDown,
    Home,
    End,
    Other,
}

/// What the terminal reader is taking keys for; a prompt or the editor
/// takes them before the slides, and the slides before the reader.
#[derive(Debug, Clone, Copy, PartialEq, Eq, Structural)]
pub enum KeyTarget {
    SearchPrompt,
    OpenPathPrompt,
    Editor,
    Slides,
    Reader,
}

/// What takes the keys, from which prompts and modes are open.
pub open spec fn key_target_of(searching: bool, opening_path: bool, editing: bool, presenting: bool) -> KeyTarget {
    if searching {
        KeyTarget::SearchPrompt
    } else if opening_path {
        KeyTarget::OpenPathPrompt
    } else if editing {
        KeyTarget::Editor
    } else if presenting {
        KeyTarget::Slides
    } else {
        KeyTarget::Reader
    }
}

/// What takes the keys.
pub fn key_target(searching: bool, opening_path: bool, editing: bool, presenting: bool) -> (r: KeyTarget)
    ensures
        r == key_target_of(searching, opening_path, editing, presenting),
{
    if searching {
        KeyTarget::SearchPrompt
    } else if opening_path {
        KeyTarget::OpenPathPrompt
    } else if editing {
        KeyTarget::Editor
    } else if presenting {
        KeyTarget::Slides
    } else {
        KeyTarget::Reader
    }
}

/// What a key press asks of the terminal reader.
#[derive(Debug, Clone, Copy, PartialEq, Eq, Structural)]
pub enum TerminalCommand {
    Ignore,
    // prompts
    CancelPrompt,
    SubmitPrompt,
    PromptBackspace,
    PromptType(char),
    // editor
    SaveEdit,
    TogglePreview,
    ScrollPreview(i8),
    ScrollPreviewPage(i8),
    LeaveEditor,
    InsertChar(char),
    EditBackspace,
    EditDelete,
    CursorLeft,
    CursorRight,
    CursorVertical(i8),
    CursorPage(i8),
    CursorLineStart,
    CursorLineEnd,
    // slides
    ExitSlides,
    NextSlide,
    PreviousSlide,
    FirstSlide,
    LastSlide,
    SlideTop,
    SlideBottom,
    SlideDown,
    SlideUp,
    // reader
    Quit,
    StartSearch,
    StartOpenPath,
    StartEditing,
    StartPresentation,
    NextMatch,
    PreviousMatch,
    NextTab,
    PreviousTab,
    NextSide,
    PreviousSide,
    GrowSplit,
    ShrinkSplit,
    ToggleSplit,
    ToggleZen,
    ToggleTask,
    CloseTab,
    ToggleFocus,
    ScrollDown,
    ScrollUp,
    NextToc,
    PreviousToc,
    JumpToToc,
    ScrollTop,
    ScrollBottom,
}

/// What a key asks of a text prompt (search or open path).
pub open spec fn prompt_command_of(key: TerminalKey) -> TerminalCommand {
    match key {
        TerminalKey::Esc => TerminalCommand::CancelPrompt,
        TerminalKey::Enter => TerminalCommand::SubmitPrompt,
        TerminalKey::Backspace => TerminalCommand::PromptBackspace,
        TerminalKey::Char(c) => TerminalCommand::PromptType(c),
        _ => TerminalCommand::Ignore,
    }
}

/// What a key asks of the editor: with Control, `s` saves, `p` shows or
/// hides the preview and the arrows and page keys scroll the preview (any
/// other Control key does nothing); without, the keys edit and move the
/// cursor, and a character is typed only with no modifier but Shift.
pub open spec fn editor_command_of(key: TerminalKey, control: bool, plain: bool) -> TerminalCommand {
    if control {
        match key {
            TerminalKey::Char(c) => if c == 's' || c == 'S' {
                TerminalCommand::SaveEdit
            } else if c == 'p' || c == 'P' {
                TerminalCommand::TogglePreview
            } else {
                TerminalCommand::Ignore
            },
            TerminalKey::Up => TerminalCommand::ScrollPreview(-1i8),
            TerminalKey::Down => TerminalCommand::ScrollPreview(1i8),
            TerminalKey::PageUp => TerminalCommand::ScrollPreviewPage(-1i8),
            TerminalKey::PageDown => TerminalCommand::ScrollPreviewPage(1i8),
            _ => TerminalCommand::Ignore,
        }
    } else {
        match key {
            TerminalKey::Esc => TerminalCommand::LeaveEditor,
            TerminalKey::Enter => TerminalCommand::InsertChar('\n'),
            TerminalKey::Backspace => TerminalCommand::EditBackspace,
            TerminalKey::Delete => TerminalCommand::EditDelete,
            TerminalKey::Left => TerminalCommand::CursorLeft,
            TerminalKey::Right => TerminalCommand::CursorRight,
            TerminalKey::Up => TerminalCommand::CursorVertical(-1i8),
            TerminalKey::Down => TerminalCommand::CursorVertical(1i8),
            TerminalKey::PageUp => TerminalCommand::CursorPage(-1i8),
            TerminalKey::PageDown => TerminalCommand::CursorPage(1i8),
            TerminalKey::Home => TerminalCommand::CursorLineStart,
            TerminalKey::End => TerminalCommand::CursorLineEnd,
            TerminalKey::Char(c) => if plain {
                TerminalCommand::InsertChar(c)
            } else {
                TerminalCommand::Ignore
            },
            _ => TerminalCommand::Ignore,
        }
    }
}

/// What a key asks of the slides.
pub open spec fn slides_command_of(key: TerminalKey) -> TerminalCommand {
    match key {
        TerminalKey::Esc => TerminalCommand::ExitSlides,
        TerminalKey::Right => TerminalCommand::NextSlide,
        TerminalKey::Left => TerminalCommand::PreviousSlide,
        TerminalKey::Home => TerminalCommand::FirstSlide,
        TerminalKey::End => TerminalCommand::LastSlide,
        TerminalKey::Down => TerminalCommand::SlideDown,
        TerminalKey::Up => TerminalCommand::SlideUp,
        TerminalKey::Char(c) => if c == 'q' {
            TerminalCommand::ExitSlides
        } else if c == ' ' || c == 'n' {
            TerminalCommand::NextSlide
        } else if c == 'b' {
            TerminalCommand::PreviousSlide
        } else if c == 'g' {
            TerminalCommand::SlideTop
        } else if c == 'G' {
            TerminalCommand::SlideBottom
        } else if c == 'j' {
            TerminalCommand::SlideDown
        } else if c == 'k' {
            TerminalCommand::SlideUp
        } else {
            TerminalCommand::Ignore
        },
        _ => TerminalCommand::Ignore,
    }
}

/// What a key asks of the reader; moving down and up goes through the
/// contents while they have the focus, and `g` and `G` act only while the
/// document has it.
pub open spec fn reader_command_of(key: TerminalKey, focus: ReaderFocus) -> TerminalCommand {
    let down = if focus == ReaderFocus::Reader {
        TerminalCommand::ScrollDown
    } else {
        TerminalCommand::NextToc
    };
    let up = if focus == ReaderFocus::Reader {
        TerminalCommand::ScrollUp
    } else {
        TerminalCommand::PreviousToc
    };
    match key {
        TerminalKey::Esc => TerminalCommand::Quit,
        TerminalKey::Tab => TerminalCommand::ToggleFocus,
        TerminalKey::Down => down,
        TerminalKey::Up => up,
        TerminalKey::Enter => TerminalCommand::JumpToToc,
        TerminalKey::Char(c) => if c == 'q' {
            TerminalCommand::Quit
        } else if c == '/' {
            TerminalCommand::StartSearch
        } else if c == 'o' {
            TerminalCommand::StartOpenPath
        } else if c == 'e' {
            TerminalCommand::StartEditing
        } else if c == 'p' {
            TerminalCommand::StartPresentation
        } else if c == 'n' {
            TerminalCommand::NextMatch
        } else if c == 'N' {
            TerminalCommand::PreviousMatch
        } else if c == ']' {
            TerminalCommand::NextTab
        } else if c == '[' {
            TerminalCommand::PreviousTab
        } else if c == '}' {
            TerminalCommand::NextSide
        } else if c == '{' {
            TerminalCommand::PreviousSide
        } else if c == '>' {
            TerminalCommand::GrowSplit
        } else if c == '<' {
            TerminalCommand::ShrinkSplit
        } else if c == '\\' {
            TerminalCommand::ToggleSplit
        } else if c == 'z' {
            TerminalCommand::ToggleZen
        } else if c == ' ' {
            TerminalCommand::ToggleTask
        } else if c == 'x' {
            TerminalCommand::CloseTab
        } else if c == 'j' {
            down
        } else if c == 'k' {
            up
        } else if c == 'g' && focus == ReaderFocus::Reader {
            TerminalCommand::ScrollTop
        } else if c == 'G' && focus == ReaderFocus::Reader {
            TerminalCommand::ScrollBottom
        } else {
            TerminalCommand::Ignore
        },
        _ => TerminalCommand::Ignore,
    }
}

/// What a key press asks of the terminal reader, given what takes the keys,
/// where the focus is, and whether Control is held and whether no modifier
/// but Shift is.
pub open spec fn terminal_command_of(
    target: KeyTarget,
    focus: ReaderFocus,
    key: TerminalKey,
    control: bool,
    plain: bool,
) -> TerminalCommand {
    match target {
        KeyTarget::SearchPrompt => prompt_command_of(key),
        KeyTarget::OpenPathPrompt => prompt_command_of(key),
        KeyTarget::Editor => editor_command_of(key, control, plain),
        KeyTarget::Slides => slides_command_of(key),
        KeyTarget::Reader => reader_command_of(key, focus),
    }
}

fn prompt_command(key: TerminalKey) -> (r: TerminalCommand)
    ensures
        r == prompt_command_of(key),
{
    match key {
        TerminalKey::Esc => TerminalCommand::CancelPrompt,
        TerminalKey::Enter => TerminalCommand::SubmitPrompt,
        TerminalKey::Backspace => TerminalCommand::PromptBackspace,
        TerminalKey::Char(c) => TerminalCommand::PromptType(c),
        _ => TerminalCommand::Ignore,
    }
}

fn editor_command(key: TerminalKey, control: bool, plain: bool) -> (r: TerminalCommand)
    ensures
        r == editor_command_of(key, control, plain),
{
    if control {
        match key {
            TerminalKey::Char(c) => if c == 's' || c == 'S' {
                TerminalCommand::SaveEdit
            } else if c == 'p' || c == 'P' {
                TerminalCommand::TogglePreview
            } else {
                TerminalCommand::Ignore
            },
            TerminalKey::Up => TerminalCommand::ScrollPreview(-1),
            TerminalKey::Down => TerminalCommand::ScrollPreview(1),
            TerminalKey::PageUp => TerminalCommand::ScrollPreviewPage(-1),
            TerminalKey::PageDown => TerminalCommand::ScrollPreviewPage(1),
            _ => TerminalCommand::Ignore,
        }
    } else {
        match key {
            TerminalKey::Esc => TerminalCommand::LeaveEditor,
            TerminalKey::Enter => TerminalCommand::InsertChar('\n'),
            TerminalKey::Backspace => TerminalCommand::EditBackspace,
            TerminalKey::Delete => TerminalCommand::EditDelete,
            TerminalKey::Left => TerminalCommand::CursorLeft,
            TerminalKey::Right => TerminalCommand::CursorRight,
            TerminalKey::Up => TerminalCommand::CursorVertical(-1),
            TerminalKey::Down => TerminalCommand::CursorVertical(1),
            TerminalKey::PageUp => TerminalCommand::CursorPage(-1),
            TerminalKey::PageDown => TerminalCommand::CursorPage(1),
            TerminalKey::Home => TerminalCommand::CursorLineStart,
            TerminalKey::End => TerminalCommand::CursorLineEnd,
            TerminalKey::Char(c) => if plain {
                TerminalCommand::InsertChar(c)
            } else {
                TerminalCommand::Ignore
            },
            _ => TerminalCommand::Ignore,
        }
    }
}

fn slides_command(key: TerminalKey) -> (r: TerminalCommand)
    ensures
        r == slides_command_of(key),
{
    match key {
        TerminalKey::Esc => TerminalCommand::ExitSlides,
        TerminalKey::Right => TerminalCommand::NextSlide,
        TerminalKey::Left => TerminalCommand::PreviousSlide,
        TerminalKey::Home => TerminalCommand::FirstSlide,
        TerminalKey::End => TerminalCommand::LastSlide,
        TerminalKey::Down => TerminalCommand::SlideDown,
        TerminalKey::Up => TerminalCommand::SlideUp,
        TerminalKey::Char(c) => if c == 'q' {
            TerminalCommand::ExitSlides
        } else if c == ' ' || c == 'n' {
            TerminalCommand::NextSlide
        } else if c == 'b' {
            TerminalCommand::PreviousSlide
        } else if c == 'g' {
            TerminalCommand::SlideTop
        } else if c == 'G' {
            TerminalCommand::SlideBottom
        } else if c == 'j' {
            TerminalCommand::SlideDown
        } else if c == 'k' {
            TerminalCommand::SlideUp
        } else {
            TerminalCommand::Ignore
        },
        _ => TerminalCommand::Ignore,
    }
}

fn reader_command(key: TerminalKey, focus: ReaderFocus) -> (r: TerminalCommand)
    ensures
        r == reader_command_of(key, focus),
{
    let down = if focus == ReaderFocus::Reader {
        TerminalCommand::ScrollDown
    } else {
        TerminalCommand::NextToc
    };
    let up = if focus == ReaderFocus::Reader {
        TerminalCommand::ScrollUp
    } else {
        TerminalCommand::PreviousToc
    };
    match key {
        TerminalKey::Esc => TerminalCommand::Quit,
        TerminalKey::Tab => TerminalCommand::ToggleFocus,
        TerminalKey::Down => down,
        TerminalKey::Up => up,
        TerminalKey::Enter => TerminalCommand::JumpToToc,
        TerminalKey::Char(c) => if c == 'q' {
            TerminalCommand::Quit
        } else if c == '/' {
            TerminalCommand::StartSearch
        } else if c == 'o' {
            TerminalCommand::StartOpenPath
        } else if c == 'e' {
            TerminalCommand::StartEditing
        } else if c == 'p' {
            TerminalCommand::StartPresentation
        } else if c == 'n' {
            TerminalCommand::NextMatch
        } else if c == 'N' {
            TerminalCommand::PreviousMatch
        } else if c == ']' {
            TerminalCommand::NextTab
        } else if c == '[' {
            TerminalCommand::PreviousTab
        } else if c == '}' {
            TerminalCommand::NextSide
        } else if c == '{' {
            TerminalCommand::PreviousSide
        } else if c == '>' {
            TerminalCommand::GrowSplit
        } else if c == '<' {
            TerminalCommand::ShrinkSplit
        } else if c == '\\' {
            TerminalCommand::ToggleSplit
        } else if c == 'z' {
            TerminalCommand::ToggleZen
        } else if c == ' ' {
            TerminalCommand::ToggleTask
        } else if c == 'x' {
            TerminalCommand::CloseTab
        } else if c == 'j' {
            down
        } else if c == 'k' {
            up
        } else if c == 'g' && focus == ReaderFocus::Reader {
            TerminalCommand::ScrollTop
        } else if c == 'G' && focus == ReaderFocus::Reader {
            TerminalCommand::ScrollBottom
        } else {
            TerminalCommand::Ignore
        },
        _ => TerminalCommand::Ignore,
    }
}

/// What a key press asks of the terminal reader.
pub fn terminal_command(
    target: KeyTarget,
    focus: ReaderFocus,
    key: TerminalKey,
    control: bool,
    plain: bool,
) -> (r: TerminalCommand)
    ensures
        r == terminal_command_of(target, focus, key, control, plain),
{
    match target {
        KeyTarget::SearchPrompt => prompt_command(key),
        KeyTarget::OpenPathPrompt => prompt_command(key),
        KeyTarget::Editor => editor_command(key, control, plain),
        KeyTarget::Slides => slides_command(key),
        KeyTarget::Reader => reader_command(key, focus),
    }
}

/// What a key asks of a list picker (dashboard, bookmarks, workspace
/// search results): quit, move, open the picked entry, or, where the picker
/// offers it, prune entries whose files are gone.
#[derive(Debug, Clone, Copy, PartialEq, Eq, Structural)]
pub enum PickerCommand {
    Ignore,
    Quit,
    Next,
    Previous,
    Open,
    Prune,
}

/// What a key asks of a list picker; `p` prunes only where `can_prune`.
pub open spec fn picker_command_of(key: TerminalKey, can_prune: bool) -> PickerCommand {
    match key {
        TerminalKey::Esc => PickerCommand::Quit,
        TerminalKey::Down => PickerCommand::Next,
        TerminalKey::Up => PickerCommand::Previous,
        TerminalKey::Enter => PickerCommand::Open,
        TerminalKey::Char(c) => if c == 'q' {
            PickerCommand::Quit
        } else if c == 'j' {
            PickerCommand::Next
        } else if c == 'k' {
            PickerCommand::Previous
        } else if c == 'p' && can_prune {
            PickerCommand::Prune
        } else {
            PickerCommand::Ignore
        },
        _ => PickerCommand::Ignore,
    }
}

/// What a key asks of a list picker.
pub fn picker_command(key: TerminalKey, can_prune: bool) -> (r: PickerCommand)
    ensures
        r == picker_command_of(key, can_prune),
{
    match key {
        TerminalKey::Esc => PickerCommand::Quit,
        TerminalKey::Down => PickerCommand::Next,
        TerminalKey::Up => PickerCommand::Previous,
        TerminalKey::Enter => PickerCommand::Open,
        TerminalKey::Char(c) => if c == 'q' {
            PickerCommand::Quit
        } else if c == 'j' {
            PickerCommand::Next
        } else if c == 'k' {
            PickerCommand::Previous
        } else if c == 'p' && can_prune {
            PickerCommand::Prune
        } else {
            PickerCommand::Ignore
        },
        _ => PickerCommand::Ignore,
    }
}

} // verus!

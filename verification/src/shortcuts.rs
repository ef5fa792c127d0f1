use vstd::prelude::*;

use crate::split_view::SplitResize;

verus! {

/// A named key that the reader window reacts to.
#[derive(Debug, Clone, Copy, PartialEq, Eq, Structural)]
pub enum NamedKey {
    ArrowLeft,
    ArrowRight,
    Space,
    Home,
    End,
    Escape,
    Other,
}

/// A key press: the named key, if it is one, the Latin character the key
/// stands for on the keyboard layout, if any, the modifiers held, and
/// whether it repeats a held key.
#[derive(Debug, Clone, Copy, PartialEq, Eq, Structural)]
pub struct KeyPress {
    pub named: Option<NamedKey>,
    pub latin: Option<char>,
    /// The platform's command modifier: the logo key on macOS, control elsewhere.
    pub command: bool,
    pub shift: bool,
    /// Whether any modifier at all is held.
    pub any_modifier: bool,
    pub repeat: bool,
}

/// A window event that the reader may answer.
#[derive(Debug, Clone, PartialEq, Eq)]
pub enum WindowEvent {
    FileHovered(String),
    FilesHoveredLeft,
    FileDropped(String),
    LeftButtonReleased,
    KeyPressed(KeyPress),
    Other,
}

/// What the reader does about a window event.
#[derive(Debug, Clone, PartialEq, Eq)]
pub enum ReaderCommand {
    FileHovered(String),
    FilesHoveredLeft,
    OpenDroppedFiles(Vec<String>),
    SplitDragEnded,
    ToggleZen,
    ToggleSplit,
    ToggleEdit,
    TogglePresentation,
    SaveEdit,
    ResizeSplit(SplitResize),
    PresentationNext,
    PresentationPrevious,
    PresentationFirst,
    PresentationLast,
    PresentationExit,
}

/// A reader command as a value.
pub enum ReaderCommandView {
    FileHovered(Seq<char>),
    FilesHoveredLeft,
    OpenDroppedFiles(Seq<Seq<char>>),
    SplitDragEnded,
    ToggleZen,
    ToggleSplit,
    ToggleEdit,
    TogglePresentation,
    SaveEdit,
    ResizeSplit(SplitResize),
    PresentationNext,
    PresentationPrevious,
    PresentationFirst,
    PresentationLast,
    PresentationExit,
}

impl DeepView for ReaderCommand {
    type V = ReaderCommandView;

    open spec fn deep_view(&self) -> ReaderCommandView {
        match self {
            ReaderCommand::FileHovered(p) => ReaderCommandView::FileHovered(p@),
            ReaderCommand::FilesHoveredLeft => ReaderCommandView::FilesHoveredLeft,
            ReaderCommand::OpenDroppedFiles(ps) => ReaderCommandView::OpenDroppedFiles(ps.deep_view()),
            ReaderCommand::SplitDragEnded => ReaderCommandView::SplitDragEnded,
            ReaderCommand::ToggleZen => ReaderCommandView::ToggleZen,
            ReaderCommand::ToggleSplit => ReaderCommandView::ToggleSplit,
            ReaderCommand::ToggleEdit => ReaderCommandView::ToggleEdit,
            ReaderCommand::TogglePresentation => ReaderCommandView::TogglePresentation,
            ReaderCommand::SaveEdit => ReaderCommandView::SaveEdit,
            ReaderCommand::ResizeSplit(r) => ReaderCommandView::ResizeSplit(*r),
            ReaderCommand::PresentationNext => ReaderCommandView::PresentationNext,
            ReaderCommand::PresentationPrevious => ReaderCommandView::PresentationPrevious,
            ReaderCommand::PresentationFirst => ReaderCommandView::PresentationFirst,
            ReaderCommand::PresentationLast => ReaderCommandView::PresentationLast,
            ReaderCommand::PresentationExit => ReaderCommandView::PresentationExit,
        }
    }
}

/// Whether the key stands for a letter, in either case.
pub open spec fn is_letter(key: KeyPress, lower: char, upper: char) -> bool {
    key.latin == Some(lower) || key.latin == Some(upper)
}

/// What a key press asks for. Presses that repeat a held key ask for
/// nothing. With the command modifier: shift and F for zen mode, a backslash
/// for the split, E for editing, P for presenting, S for saving, and the
/// brackets to widen or narrow the first pane, in that order of precedence.
/// With no modifier: the right arrow, space or N for the next slide, the
/// left arrow or B for the previous one, Home and End for the first and
/// last, Escape to leave the presentation.
pub open spec fn key_command_of(key: KeyPress) -> Option<ReaderCommandView> {
    if key.repeat {
        None
    } else if key.command && key.shift && is_letter(key, 'f', 'F') {
        Some(ReaderCommandView::ToggleZen)
    } else if key.command && key.latin == Some('\\') {
        Some(ReaderCommandView::ToggleSplit)
    } else if key.command && is_letter(key, 'e', 'E') {
        Some(ReaderCommandView::ToggleEdit)
    } else if key.command && is_letter(key, 'p', 'P') {
        Some(ReaderCommandView::TogglePresentation)
    } else if key.command && is_letter(key, 's', 'S') {
        Some(ReaderCommandView::SaveEdit)
    } else if key.command && key.latin == Some(']') {
        Some(ReaderCommandView::ResizeSplit(SplitResize::GrowPrimary))
    } else if key.command && key.latin == Some('[') {
        Some(ReaderCommandView::ResizeSplit(SplitResize::ShrinkPrimary))
    } else if key.any_modifier {
        None
    } else if key.named == Some(NamedKey::ArrowRight) || key.named == Some(NamedKey::Space) || is_letter(
        key,
        'n',
        'N',
    ) {
        Some(ReaderCommandView::PresentationNext)
    } else if key.named == Some(NamedKey::ArrowLeft) || is_letter(key, 'b', 'B') {
        Some(ReaderCommandView::PresentationPrevious)
    } else if key.named == Some(NamedKey::Home) {
        Some(ReaderCommandView::PresentationFirst)
    } else if key.named == Some(NamedKey::End) {
        Some(ReaderCommandView::PresentationLast)
    } else if key.named == Some(NamedKey::Escape) {
        Some(ReaderCommandView::PresentationExit)
    } else {
        None
    }
}

/// What a window event asks for: hovering and dropping files, ending a
/// divider drag on releasing the left button, and the keyboard shortcuts.
pub open spec fn event_command_of(event: WindowEvent) -> Option<ReaderCommandView> {
    match event {
        WindowEvent::FileHovered(p) => Some(ReaderCommandView::FileHovered(p@)),
        WindowEvent::FilesHoveredLeft => Some(ReaderCommandView::FilesHoveredLeft),
        WindowEvent::FileDropped(p) => Some(ReaderCommandView::OpenDroppedFiles(seq![p@])),
        WindowEvent::LeftButtonReleased => Some(ReaderCommandView::SplitDragEnded),
        WindowEvent::KeyPressed(key) => key_command_of(key),
        WindowEvent::Other => None,
    }
}

fn is_letter_key(key: &KeyPress, lower: char, upper: char) -> (r: bool)
    ensures
        r == is_letter(*key, lower, upper),
{
    match key.latin {
        Some(c) => c == lower || c == upper,
        None => false,
    }
}

fn is_latin(key: &KeyPress, c: char) -> (r: bool)
    ensures
        r == (key.latin == Some(c)),
{
    match key.latin {
        Some(d) => d == c,
        None => false,
    }
}

fn is_named(key: &KeyPress, n: NamedKey) -> (r: bool)
    ensures
        r == (key.named == Some(n)),
{
    match key.named {
        Some(m) => m == n,
        None => false,
    }
}

/// What a key press asks for; see `key_command_of`.
pub fn key_command(key: &KeyPress) -> (r: Option<ReaderCommand>)
    ensures
        r.deep_view() == key_command_of(*key),
{
    if key.repeat {
        None
    } else if key.command && key.shift && is_letter_key(key, 'f', 'F') {
        Some(ReaderCommand::ToggleZen)
    } else if key.command && is_latin(key, '\\') {
        Some(ReaderCommand::ToggleSplit)
    } else if key.command && is_letter_key(key, 'e', 'E') {
        Some(ReaderCommand::ToggleEdit)
    } else if key.command && is_letter_key(key, 'p', 'P') {
        Some(ReaderCommand::TogglePresentation)
    } else if key.command && is_letter_key(key, 's', 'S') {
        Some(ReaderCommand::SaveEdit)
    } else if key.command && is_latin(key, ']') {
        Some(ReaderCommand::ResizeSplit(SplitResize::GrowPrimary))
    } else if key.command && is_latin(key, '[') {
        Some(ReaderCommand::ResizeSplit(SplitResize::ShrinkPrimary))
    } else if key.any_modifier {
        None
    } else if is_named(key, NamedKey::ArrowRight) || is_named(key, NamedKey::Space) || is_letter_key(key, 'n', 'N') {
        Some(ReaderCommand::PresentationNext)
    } else if is_named(key, NamedKey::ArrowLeft) || is_letter_key(key, 'b', 'B') {
        Some(ReaderCommand::PresentationPrevious)
    } else if is_named(key, NamedKey::Home) {
        Some(ReaderCommand::PresentationFirst)
    } else if is_named(key, NamedKey::End) {
        Some(ReaderCommand::PresentationLast)
    } else if is_named(key, NamedKey::Escape) {
        Some(ReaderCommand::PresentationExit)
    } else {
        None
    }
}

/// What a window event asks for; see `event_command_of`.
pub fn runtime_event(event: WindowEvent) -> (r: Option<ReaderCommand>)
    ensures
        r.deep_view() == event_command_of(event),
{
    match event {
        WindowEvent::FileHovered(p) => Some(ReaderCommand::FileHovered(p)),
        WindowEvent::FilesHoveredLeft => Some(ReaderCommand::FilesHoveredLeft),
        WindowEvent::FileDropped(p) => {
            let mut paths: Vec<String> = Vec::new();
            paths.push(p);
            assert(paths.deep_view() =~= seq![p@]);
            Some(ReaderCommand::OpenDroppedFiles(paths))
        },
        WindowEvent::LeftButtonReleased => Some(ReaderCommand::SplitDragEnded),
        WindowEvent::KeyPressed(key) => key_command(&key),
        WindowEvent::Other => None,
    }
}

} // verus!

pub mod bookmarks;
pub mod config;
pub mod document;
pub mod editing;
pub mod editor;
pub mod export;
pub mod gui;
pub mod highlight;
pub mod history;
pub mod links;
pub mod memory;
pub mod open_documents;
pub mod parser;
pub mod pdf;
pub mod paths;
pub mod presentation;
pub mod reader;
pub mod reader_nav;
pub mod render;
pub mod report;
pub mod search;
pub mod search_highlight;
pub mod selection;
pub mod shortcuts;
pub mod split_view;
pub mod stats;
pub mod summary;
pub mod tex;
pub mod terminal;
pub mod terminal_keys;
pub mod text;
pub mod watcher;
pub mod window;
pub mod zen_mode;

pub use bookmarks::{Bookmark, BookmarkStore, Bookmarks};
pub use config::{Config, ConfigStore, ThemePreference};
pub use document::{toggle_task_line_source, Document, DocumentError, SupportedFileType};
pub use editing::{EditSession, EditSessionError};
pub use history::{FileEntry, History, HistoryStore};
pub use open_documents::OpenDocuments;
pub use presentation::{presentation_deck, PresentationDeck, Slide};
pub use search::{search_lines, SearchMatch, WorkspaceSearchError, WorkspaceSearchMatch};
pub use split_view::{synced_scroll_offset, SplitResize, SplitViewState};
pub use stats::{document_stats, DocumentStats, StatsHeading};
pub use tex::{tex_pdf_artifact_path, TexCompileArtifact, TexCompileError, TexCompileInput};
pub use zen_mode::ZenModeState;

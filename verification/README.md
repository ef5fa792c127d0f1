# paperview

A Markdown viewer's core, written in Verus: the document model, the Markdown
parser's block builder over pulldown-cmark's events, rendering to terminal
text, HTML and PDF export, slides, search, history, bookmarks, open tabs,
split view, the edit session, and the decisions of the terminal and desktop
readers (layouts, key commands, status lines, window state).

- `src/` is the verified library. Calls into pulldown-cmark and into std's
  path functions go through small trusted wrappers whose contracts say what
  the outside code does.
- `app/` is the command-line program around it: arguments, files, the
  TeX compiler and ripgrep processes, and TOML and JSON through serde.
- `tests/` runs the library on concrete documents.

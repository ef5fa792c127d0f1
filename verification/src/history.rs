use vstd::prelude::*;

use crate::document::Document;
use crate::paths::{path_eq, same_path};
use crate::text::TextSource;

verus! {

/// A recently opened file: its path and the title it had.
#[derive(Debug, Clone, PartialEq, Eq)]
pub struct FileEntry {
    path: String,
    title: String,
}

impl View for FileEntry {
    type V = (Seq<char>, Seq<char>);

    closed spec fn view(&self) -> (Seq<char>, Seq<char>) {
        (self.path@, self.title@)
    }
}

impl DeepView for FileEntry {
    type V = (Seq<char>, Seq<char>);

    open spec fn deep_view(&self) -> (Seq<char>, Seq<char>) {
        self@
    }
}

impl FileEntry {
    /// An entry for `path` with `title`.
    pub fn new<P: TextSource, T: TextSource>(path: P, title: T) -> (r: FileEntry)
        ensures
            r@ == (path.text_of(), title.text_of()),
    {
        FileEntry { path: path.into_string(), title: title.into_string() }
    }

    /// The entry for a document that came from a file; none for one that did not.
    pub fn from_document(document: &Document) -> (r: Option<FileEntry>)
        ensures
            match document.path_view() {
                Some(p) => r matches Some(e) && e@ == (p, document.title_view()),
                None => r is None,
            },
    {
        match document.path() {
            Some(path) => Some(FileEntry::new(path, document.title())),
            None => None,
        }
    }

    /// The file's path.
    pub fn path(&self) -> (r: &str)
        ensures
            r@ == self@.0,
    {
        self.path.as_str()
    }

    /// The file's title.
    pub fn title(&self) -> (r: &str)
        ensures
            r@ == self@.1,
    {
        self.title.as_str()
    }
}

/// Recently opened files, newest first, one entry per path.
#[derive(Debug, Clone, PartialEq, Eq)]
pub struct History {
    entries: Vec<FileEntry>,
}

impl View for History {
    type V = Seq<(Seq<char>, Seq<char>)>;

    closed spec fn view(&self) -> Seq<(Seq<char>, Seq<char>)> {
        self.entries.deep_view()
    }
}

/// The entries whose path differs from `path`, in order.
pub open spec fn without_path(
    entries: Seq<(Seq<char>, Seq<char>)>,
    path: Seq<char>,
) -> Seq<(Seq<char>, Seq<char>)>
    decreases entries.len(),
{
    if entries.len() == 0 {
        Seq::empty()
    } else {
        let rest = without_path(entries.drop_last(), path);
        if path_eq(entries.last().0, path) {
            rest
        } else {
            rest.push(entries.last())
        }
    }
}

/// The history after recording `entry`: it comes first, and no older entry
/// for the same path stays.
pub open spec fn recorded(
    entries: Seq<(Seq<char>, Seq<char>)>,
    entry: (Seq<char>, Seq<char>),
) -> Seq<(Seq<char>, Seq<char>)> {
    seq![entry] + without_path(entries, entry.0)
}

impl History {
    /// No entries.
    pub fn new() -> (r: History)
        ensures
            r@ == Seq::<(Seq<char>, Seq<char>)>::empty(),
    {
        History { entries: Vec::new() }
    }

    /// A history holding `entries`, in the order given.
    pub fn from_entries(entries: Vec<FileEntry>) -> (r: History)
        ensures
            r@ == entries.deep_view(),
    {
        History { entries }
    }

    /// Records `entry` as the newest, dropping older entries for its path;
    /// a history with one entry per path keeps one entry per path.
    pub fn record(&mut self, entry: FileEntry)
        ensures
            final(self)@ == recorded(old(self)@, entry@),
            distinct_paths(old(self)@) ==> distinct_paths(final(self)@),
    {
        let ghost old_view = self@;
        let mut kept: Vec<FileEntry> = Vec::new();
        let mut i: usize = 0;
        assert(old_view.take(0) =~= Seq::<(Seq<char>, Seq<char>)>::empty());
        while i < self.entries.len()
            invariant
                i <= self.entries@.len(),
                old_view == self@,
                old_view == self.entries.deep_view(),
                kept.deep_view() == without_path(old_view.take(i as int), entry@.0),
                forall|k: int| 0 <= k < kept@.len() ==> !path_eq(entry@.0, #[trigger] kept.deep_view()[k].0),
            decreases self.entries@.len() - i,
        {
            let ghost before = kept.deep_view();
            let e = &self.entries[i];
            assert(old_view.take(i + 1).drop_last() =~= old_view.take(i as int));
            assert(old_view[i as int] == e@);
            if !same_path(e.path.as_str(), entry.path.as_str()) {
                let copy = FileEntry { path: e.path.clone(), title: e.title.clone() };
                kept.push(copy);
                assert(kept.deep_view() =~= before.push(old_view[i as int]));
                assert(kept.deep_view()[before.len() as int] == old_view[i as int]);
            }
            i = i + 1;
        }
        assert(old_view.take(self.entries@.len() as int) =~= old_view);
        let ghost rest = kept.deep_view();
        kept.insert(0, entry);
        assert(kept.deep_view() =~= seq![entry@] + rest);
        self.entries = kept;
        proof {
            let new_view = seq![entry@] + rest;
            if distinct_paths(old_view) {
                lemma_without_path_kept(old_view, entry@.0);
                lemma_distinct_without_path(old_view, entry@.0);
                assert forall|a: int, b: int|
                    0 <= a < new_view.len() && 0 <= b < new_view.len() && a != b implies !path_eq(
                    #[trigger] new_view[a].0,
                    #[trigger] new_view[b].0,
                ) by {
                    if a > 0 && b > 0 {
                        assert(new_view[a] == rest[a - 1] && new_view[b] == rest[b - 1]);
                    } else if a == 0 {
                        assert(new_view[b] == rest[b - 1]);
                        assert(!path_eq(entry@.0, rest[b - 1].0));
                    } else {
                        assert(new_view[a] == rest[a - 1]);
                    }
                }
            }
        }
    }

    /// Records the document's file, if it came from one.
    pub fn record_document(&mut self, document: &Document)
        ensures
            match document.path_view() {
                Some(p) => final(self)@ == recorded(old(self)@, (p, document.title_view())),
                None => final(self)@ == old(self)@,
            },
    {
        match FileEntry::from_document(document) {
            Some(entry) => self.record(entry),
            None => {},
        }
    }

    /// The entries, newest first.
    pub fn entries(&self) -> (r: &[FileEntry])
        ensures
            r.deep_view() == self@,
    {
        self.entries.as_slice()
    }

    /// Whether there are no entries.
    pub fn is_empty(&self) -> (r: bool)
        ensures
            r == (self@.len() == 0),
    {
        self.entries.len() == 0
    }
}

/// Entries with one entry per path: no two of them have equal paths.
pub open spec fn distinct_paths(entries: Seq<(Seq<char>, Seq<char>)>) -> bool {
    forall|a: int, b: int|
        0 <= a < entries.len() && 0 <= b < entries.len() && a != b ==> !path_eq(
            #[trigger] entries[a].0,
            #[trigger] entries[b].0,
        )
}

/// Dropping the entries for a path keeps the others one per path.
proof fn lemma_distinct_without_path(entries: Seq<(Seq<char>, Seq<char>)>, path: Seq<char>)
    requires
        distinct_paths(entries),
    ensures
        distinct_paths(without_path(entries, path)),
    decreases entries.len(),
{
    if entries.len() > 0 {
        let init = entries.drop_last();
        assert forall|a: int, b: int|
            0 <= a < init.len() && 0 <= b < init.len() && a != b implies !path_eq(
            #[trigger] init[a].0,
            #[trigger] init[b].0,
        ) by {
            assert(init[a] == entries[a] && init[b] == entries[b]);
        }
        lemma_distinct_without_path(init, path);
        lemma_without_path_kept(init, path);
        let r = without_path(init, path);
        if !path_eq(entries.last().0, path) {
            let out = r.push(entries.last());
            assert forall|a: int, b: int|
                0 <= a < out.len() && 0 <= b < out.len() && a != b implies !path_eq(
                #[trigger] out[a].0,
                #[trigger] out[b].0,
            ) by {
                if a < r.len() && b < r.len() {
                    assert(out[a] == r[a] && out[b] == r[b]);
                } else if a < r.len() {
                    let m = choose|m: int| 0 <= m < init.len() && r[a] == #[trigger] init[m];
                    assert(out[a] == r[a] && r[a] == entries[m]);
                    assert(out[b] == entries[entries.len() - 1]);
                } else {
                    let m = choose|m: int| 0 <= m < init.len() && r[b] == #[trigger] init[m];
                    assert(out[b] == r[b] && r[b] == entries[m]);
                    assert(out[a] == entries[entries.len() - 1]);
                }
            }
        }
    }
}

/// Every entry kept by `without_path` was there, and has another path.
proof fn lemma_without_path_kept(entries: Seq<(Seq<char>, Seq<char>)>, path: Seq<char>)
    ensures
        without_path(entries, path).len() <= entries.len(),
        forall|i: int|
            0 <= i < without_path(entries, path).len() ==> exists|m: int|
                0 <= m < entries.len() && #[trigger] without_path(entries, path)[i] == #[trigger] entries[m],
        forall|i: int| 0 <= i < without_path(entries, path).len() ==> !path_eq(
            (#[trigger] without_path(entries, path)[i]).0,
            path,
        ),
    decreases entries.len(),
{
    if entries.len() > 0 {
        lemma_without_path_kept(entries.drop_last(), path);
    }
}

impl Default for History {
    /// No entries.
    fn default() -> (r: History)
        ensures
            r@ == Seq::<(Seq<char>, Seq<char>)>::empty(),
    {
        History::new()
    }
}

/// Where the history is kept on disk.
#[derive(Debug, Clone, PartialEq, Eq)]
pub struct HistoryStore {
    path: String,
}

impl View for HistoryStore {
    type V = Seq<char>;

    closed spec fn view(&self) -> Seq<char> {
        self.path@
    }
}

impl HistoryStore {
    /// A store at `path`.
    pub fn new<P: TextSource>(path: P) -> (r: HistoryStore)
        ensures
            r@ == path.text_of(),
    {
        HistoryStore { path: path.into_string() }
    }

    /// The file the history is kept in.
    pub fn path(&self) -> (r: &str)
        ensures
            r@ == self@,
    {
        self.path.as_str()
    }
}

/// After recording, the new entry is the newest and no other entry has its
/// path; the history grows by at most one entry.
pub proof fn lemma_recorded_entry_first_and_unique(
    entries: Seq<(Seq<char>, Seq<char>)>,
    entry: (Seq<char>, Seq<char>),
)
    ensures
        recorded(entries, entry)[0] == entry,
        forall|i: int| 1 <= i < recorded(entries, entry).len() ==> !path_eq(
            (#[trigger] recorded(entries, entry)[i]).0,
            entry.0,
        ),
        recorded(entries, entry).len() <= entries.len() + 1,
{
    lemma_without_path_kept(entries, entry.0);
    assert forall|i: int| 1 <= i < recorded(entries, entry).len() implies !path_eq(
        (#[trigger] recorded(entries, entry)[i]).0,
        entry.0,
    ) by {
        assert(recorded(entries, entry)[i] == without_path(entries, entry.0)[i - 1]);
    }
}

} // verus!

use vstd::prelude::*;

use crate::document::Document;
use crate::paths::{path_eq, same_path};
use crate::text::TextSource;

verus! {

/// A bookmark as a value: the file, its title, and where in it.
pub struct BookmarkView {
    pub path: Seq<char>,
    pub title: Seq<char>,
    pub heading_anchor: Option<Seq<char>>,
    pub source_line: Option<usize>,
    pub scroll_progress_bits: Option<u32>,
}

/// A place in a file to come back to: the file and its title, and
/// optionally a heading anchor, a source line and a scroll position.
///
/// The scroll position is carried as the bit pattern of an `f32` between
/// zero and one; this library never reads it.
#[derive(Debug, Clone, PartialEq, Eq)]
pub struct Bookmark {
    path: String,
    title: String,
    heading_anchor: Option<String>,
    source_line: Option<usize>,
    scroll_progress_bits: Option<u32>,
}

impl View for Bookmark {
    type V = BookmarkView;

    closed spec fn view(&self) -> BookmarkView {
        BookmarkView {
            path: self.path@,
            title: self.title@,
            heading_anchor: self.heading_anchor.deep_view(),
            source_line: self.source_line,
            scroll_progress_bits: self.scroll_progress_bits,
        }
    }
}

impl DeepView for Bookmark {
    type V = BookmarkView;

    open spec fn deep_view(&self) -> BookmarkView {
        self@
    }
}

/// Whether two bookmarks point at the same place: the same file, anchor
/// and line, whatever their titles and scroll positions.
pub open spec fn same_target(a: BookmarkView, b: BookmarkView) -> bool {
    path_eq(a.path, b.path) && a.heading_anchor == b.heading_anchor && a.source_line == b.source_line
}

impl Bookmark {
    /// A bookmark of a whole file.
    pub fn new<P: TextSource, T: TextSource>(path: P, title: T) -> (r: Bookmark)
        ensures
            r@ == (BookmarkView {
                path: path.text_of(),
                title: title.text_of(),
                heading_anchor: None,
                source_line: None,
                scroll_progress_bits: None,
            }),
    {
        Bookmark {
            path: path.into_string(),
            title: title.into_string(),
            heading_anchor: None,
            source_line: None,
            scroll_progress_bits: None,
        }
    }

    /// A bookmark of a document's file and title; none for a document that
    /// did not come from a file.
    pub fn from_document(document: &Document) -> (r: Option<Bookmark>)
        ensures
            match document.path_view() {
                Some(p) => r matches Some(b) && b@ == (BookmarkView {
                    path: p,
                    title: document.title_view(),
                    heading_anchor: None,
                    source_line: None,
                    scroll_progress_bits: None,
                }),
                None => r is None,
            },
    {
        match document.path() {
            Some(path) => Some(Bookmark::new(path.clone(), document.title())),
            None => None,
        }
    }

    /// The bookmark at a heading anchor.
    pub fn with_heading_anchor<A: TextSource>(self, heading_anchor: A) -> (r: Bookmark)
        ensures
            r@ == (BookmarkView { heading_anchor: Some(heading_anchor.text_of()), ..self@ }),
    {
        Bookmark { heading_anchor: Some(heading_anchor.into_string()), ..self }
    }

    /// The bookmark at a source line.
    pub fn with_source_line(self, source_line: usize) -> (r: Bookmark)
        ensures
            r@ == (BookmarkView { source_line: Some(source_line), ..self@ }),
    {
        Bookmark { source_line: Some(source_line), ..self }
    }

    /// The bookmark at a scroll position, given as the bits of an `f32`
    /// already clamped to the range from zero to one.
    pub fn with_scroll_progress_bits(self, bits: u32) -> (r: Bookmark)
        ensures
            r@ == (BookmarkView { scroll_progress_bits: Some(bits), ..self@ }),
    {
        Bookmark { scroll_progress_bits: Some(bits), ..self }
    }

    /// The file.
    pub fn path(&self) -> (r: &str)
        ensures
            r@ == self@.path,
    {
        self.path.as_str()
    }

    /// The title.
    pub fn title(&self) -> (r: &str)
        ensures
            r@ == self@.title,
    {
        self.title.as_str()
    }

    /// The heading anchor, if any.
    pub fn heading_anchor(&self) -> (r: Option<&str>)
        ensures
            match self@.heading_anchor {
                Some(a) => r matches Some(s) && s@ == a,
                None => r is None,
            },
    {
        match &self.heading_anchor {
            Some(a) => Some(a.as_str()),
            None => None,
        }
    }

    /// The source line, if any.
    pub fn source_line(&self) -> (r: Option<usize>)
        ensures
            r == self@.source_line,
    {
        self.source_line
    }

    /// The bits of the scroll position, if any.
    pub fn scroll_progress_bits(&self) -> (r: Option<u32>)
        ensures
            r == self@.scroll_progress_bits,
    {
        self.scroll_progress_bits
    }

    fn identity_matches(&self, other: &Bookmark) -> (r: bool)
        ensures
            r == same_target(self@, other@),
    {
        let anchors_match = match (&self.heading_anchor, &other.heading_anchor) {
            (Some(a), Some(b)) => *a == *b,
            (None, None) => true,
            _ => false,
        };
        same_path(self.path.as_str(), other.path.as_str()) && anchors_match && self.source_line == other.source_line
    }
}

/// The bookmarks that point elsewhere than `b`, in order.
pub open spec fn without_target(entries: Seq<BookmarkView>, b: BookmarkView) -> Seq<BookmarkView>
    decreases entries.len(),
{
    if entries.len() == 0 {
        Seq::empty()
    } else {
        let rest = without_target(entries.drop_last(), b);
        if same_target(entries.last(), b) {
            rest
        } else {
            rest.push(entries.last())
        }
    }
}

/// The bookmarks after adding `b`: it comes first, and no older bookmark
/// of the same place stays.
pub open spec fn added(entries: Seq<BookmarkView>, b: BookmarkView) -> Seq<BookmarkView> {
    seq![b] + without_target(entries, b)
}

/// The bookmarks whose file is still there, in order.
pub open spec fn kept_present(entries: Seq<BookmarkView>, present: Seq<bool>) -> Seq<BookmarkView>
    decreases entries.len(),
{
    if entries.len() == 0 {
        Seq::empty()
    } else {
        let rest = kept_present(entries.drop_last(), present);
        if present[entries.len() - 1] {
            rest.push(entries.last())
        } else {
            rest
        }
    }
}

/// Saved places, newest first, one per place.
#[derive(Debug, Clone, PartialEq, Eq)]
pub struct Bookmarks {
    entries: Vec<Bookmark>,
}

impl View for Bookmarks {
    type V = Seq<BookmarkView>;

    closed spec fn view(&self) -> Seq<BookmarkView> {
        self.entries.deep_view()
    }
}

impl Bookmarks {
    /// No bookmarks.
    pub fn new() -> (r: Bookmarks)
        ensures
            r@ == Seq::<BookmarkView>::empty(),
    {
        let r = Bookmarks { entries: Vec::new() };
        assert(r@ =~= Seq::<BookmarkView>::empty());
        r
    }

    /// Bookmarks holding `entries`, in the order given.
    pub fn from_entries(entries: Vec<Bookmark>) -> (r: Bookmarks)
        ensures
            r@ == entries.deep_view(),
    {
        Bookmarks { entries }
    }

    /// Adds a bookmark as the newest, dropping older ones of the same place.
    pub fn add(&mut self, bookmark: Bookmark)
        ensures
            final(self)@ == added(old(self)@, bookmark@),
    {
        let ghost old_view = self@;
        let mut kept: Vec<Bookmark> = Vec::new();
        let mut i: usize = 0;
        assert(old_view.take(0) =~= Seq::<BookmarkView>::empty());
        while i < self.entries.len()
            invariant
                i <= self.entries@.len(),
                old_view == self@,
                old_view == self.entries.deep_view(),
                kept.deep_view() == without_target(old_view.take(i as int), bookmark@),
            decreases self.entries@.len() - i,
        {
            let ghost before = kept.deep_view();
            let e = &self.entries[i];
            assert(old_view.take(i + 1).drop_last() =~= old_view.take(i as int));
            assert(old_view[i as int] == e@);
            if !e.identity_matches(&bookmark) {
                let copy = Bookmark {
                    path: e.path.clone(),
                    title: e.title.clone(),
                    heading_anchor: match &e.heading_anchor {
                        Some(a) => Some(a.clone()),
                        None => None,
                    },
                    source_line: e.source_line,
                    scroll_progress_bits: e.scroll_progress_bits,
                };
                kept.push(copy);
                assert(kept.deep_view() =~= before.push(old_view[i as int]));
            }
            i = i + 1;
        }
        assert(old_view.take(self.entries@.len() as int) =~= old_view);
        let ghost rest = kept.deep_view();
        kept.insert(0, bookmark);
        assert(kept.deep_view() =~= seq![bookmark@] + rest);
        self.entries = kept;
    }

    /// Takes out the bookmark at `index`; none when there is no such one.
    pub fn remove(&mut self, index: usize) -> (r: Option<Bookmark>)
        ensures
            index < old(self)@.len() ==> (r matches Some(b) && b@ == old(self)@[index as int]),
            index < old(self)@.len() ==> final(self)@ == old(self)@.remove(index as int),
            index >= old(self)@.len() ==> r is None && final(self)@ == old(self)@,
    {
        if index < self.entries.len() {
            let ghost before = self@;
            let b = self.entries.remove(index);
            assert(self@ =~= before.remove(index as int));
            Some(b)
        } else {
            None
        }
    }

    /// Drops the bookmarks whose file is gone, given for each bookmark
    /// whether its file is there, and says how many were dropped.
    pub fn prune_missing(&mut self, present: &[bool]) -> (r: usize)
        requires
            present@.len() == old(self)@.len(),
        ensures
            final(self)@ == kept_present(old(self)@, present@),
            r == old(self)@.len() - final(self)@.len(),
    {
        let ghost old_view = self@;
        let mut kept: Vec<Bookmark> = Vec::new();
        let mut i: usize = 0;
        let n = self.entries.len();
        assert(old_view.take(0) =~= Seq::<BookmarkView>::empty());
        while i < n
            invariant
                i <= n,
                n == self.entries@.len(),
                present@.len() == n,
                old_view == self.entries.deep_view(),
                kept.deep_view() == kept_present(old_view.take(i as int), present@),
                kept@.len() <= i,
            decreases n - i,
        {
            let ghost before = kept.deep_view();
            let e = &self.entries[i];
            assert(old_view.take(i + 1).drop_last() =~= old_view.take(i as int));
            assert(old_view[i as int] == e@);
            if present[i] {
                let copy = Bookmark {
                    path: e.path.clone(),
                    title: e.title.clone(),
                    heading_anchor: match &e.heading_anchor {
                        Some(a) => Some(a.clone()),
                        None => None,
                    },
                    source_line: e.source_line,
                    scroll_progress_bits: e.scroll_progress_bits,
                };
                kept.push(copy);
                assert(kept.deep_view() =~= before.push(old_view[i as int]));
            }
            i = i + 1;
        }
        assert(old_view.take(n as int) =~= old_view);
        let removed = n - kept.len();
        self.entries = kept;
        removed
    }

    /// The bookmarks, newest first.
    pub fn entries(&self) -> (r: &[Bookmark])
        ensures
            r.deep_view() == self@,
    {
        self.entries.as_slice()
    }

    /// Whether there are none.
    pub fn is_empty(&self) -> (r: bool)
        ensures
            r == (self@.len() == 0),
    {
        self.entries.len() == 0
    }
}

impl Default for Bookmarks {
    /// No bookmarks.
    fn default() -> (r: Bookmarks)
        ensures
            r@ == Seq::<BookmarkView>::empty(),
    {
        Bookmarks::new()
    }
}

/// Every bookmark kept by `without_target` was there and points elsewhere.
proof fn lemma_without_target_kept(entries: Seq<BookmarkView>, b: BookmarkView)
    ensures
        without_target(entries, b).len() <= entries.len(),
        forall|i: int| 0 <= i < without_target(entries, b).len() ==> !same_target(
            #[trigger] without_target(entries, b)[i],
            b,
        ),
    decreases entries.len(),
{
    if entries.len() > 0 {
        lemma_without_target_kept(entries.drop_last(), b);
    }
}

/// After adding, the new bookmark is the newest and no other bookmark points
/// at its place; the list grows by at most one.
pub proof fn lemma_added_bookmark_first_and_unique(entries: Seq<BookmarkView>, b: BookmarkView)
    ensures
        added(entries, b)[0] == b,
        forall|i: int| 1 <= i < added(entries, b).len() ==> !same_target(#[trigger] added(entries, b)[i], b),
        added(entries, b).len() <= entries.len() + 1,
{
    lemma_without_target_kept(entries, b);
    let a = added(entries, b);
    assert forall|i: int| 1 <= i < a.len() implies !same_target(#[trigger] a[i], b) by {
        assert(a[i] == without_target(entries, b)[i - 1]);
    }
}

/// Where the bookmarks are kept on disk.
#[derive(Debug, Clone, PartialEq, Eq)]
pub struct BookmarkStore {
    path: String,
}

impl View for BookmarkStore {
    type V = Seq<char>;

    closed spec fn view(&self) -> Seq<char> {
        self.path@
    }
}

impl BookmarkStore {
    /// A store at `path`.
    pub fn new<P: TextSource>(path: P) -> (r: BookmarkStore)
        ensures
            r@ == path.text_of(),
    {
        BookmarkStore { path: path.into_string() }
    }

    /// The file the bookmarks are kept in.
    pub fn path(&self) -> (r: &str)
        ensures
            r@ == self@,
    {
        self.path.as_str()
    }
}

proof fn lemma_without_target_keeps(entries: Seq<BookmarkView>, b: BookmarkView, i: int)
    requires
        0 <= i < entries.len(),
        !same_target(entries[i], b),
    ensures
        without_target(entries, b).contains(entries[i]),
    decreases entries.len(),
{
    let init = entries.drop_last();
    if i < entries.len() - 1 {
        assert(init[i] == entries[i]);
        lemma_without_target_keeps(init, b, i);
        let k = choose|k: int| 0 <= k < without_target(init, b).len() && without_target(init, b)[k] == entries[i];
        if !same_target(entries.last(), b) {
            assert(without_target(entries, b)[k] == entries[i]);
        }
    } else {
        let r = without_target(init, b);
        assert(without_target(entries, b) == r.push(entries.last()));
        assert(without_target(entries, b)[r.len() as int] == entries[i]);
    }
}

/// Adding a bookmark puts it first and drops exactly the bookmarks for the
/// same place: same file, same heading anchor and same source line. Every
/// bookmark that differs from it in its file, its anchor or its line stays.
pub proof fn lemma_add_keeps_other_places(entries: Seq<BookmarkView>, b: BookmarkView)
    ensures
        added(entries, b)[0] == b,
        forall|i: int|
            0 <= i < entries.len() && (!path_eq(entries[i].path, b.path) || entries[i].heading_anchor
                != b.heading_anchor || entries[i].source_line != b.source_line) ==> #[trigger] added(
                entries,
                b,
            ).contains(entries[i]),
        forall|k: int|
            1 <= k < added(entries, b).len() ==> !(path_eq(#[trigger] added(entries, b)[k].path, b.path)
                && added(entries, b)[k].heading_anchor == b.heading_anchor && added(entries, b)[k].source_line
                == b.source_line),
{
    lemma_without_target_kept(entries, b);
    let a = added(entries, b);
    assert forall|i: int|
        0 <= i < entries.len() && (!path_eq(entries[i].path, b.path) || entries[i].heading_anchor
            != b.heading_anchor || entries[i].source_line != b.source_line) implies #[trigger] added(
            entries,
            b,
        ).contains(entries[i]) by {
        lemma_without_target_keeps(entries, b, i);
        let k = choose|k: int| 0 <= k < without_target(entries, b).len() && without_target(entries, b)[k] == entries[i];
        assert(a[k + 1] == entries[i]);
    }
    assert forall|k: int| 1 <= k < a.len() implies !(path_eq(#[trigger] a[k].path, b.path) && a[k].heading_anchor
        == b.heading_anchor && a[k].source_line == b.source_line) by {
        assert(a[k] == without_target(entries, b)[k - 1]);
    }
}

} // verus!

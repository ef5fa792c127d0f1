use vstd::prelude::*;

use crate::document::Document;
use crate::paths::{path_eq, same_path};

verus! {

/// The open documents, one per tab, and which one is active.
#[derive(Debug, PartialEq, Eq)]
pub struct OpenDocuments {
    documents: Vec<Document>,
    active: Option<usize>,
}

/// The first document, from the front, that came from a file whose path
/// equals `path`.
pub open spec fn index_for_path_of(documents: Seq<Document>, path: Seq<char>) -> Option<nat>
    decreases documents.len(),
{
    if documents.len() == 0 {
        None
    } else {
        match index_for_path_of(documents.drop_last(), path) {
            Some(i) => Some(i),
            None => match documents.last().path_view() {
                Some(p) => if path_eq(p, path) {
                    Some((documents.len() - 1) as nat)
                } else {
                    None
                },
                None => None,
            },
        }
    }
}

/// Where a document goes when it is opened: over the tab of the same file,
/// if one is open, else into a new tab at the end.
pub open spec fn open_target_of(documents: Seq<Document>, document: Document) -> nat {
    match document.path_view() {
        Some(p) => match index_for_path_of(documents, p) {
            Some(i) => i,
            None => documents.len(),
        },
        None => documents.len(),
    }
}

/// The tabs after opening `document`.
pub open spec fn opened_of(documents: Seq<Document>, document: Document) -> Seq<Document> {
    let i = open_target_of(documents, document);
    if i < documents.len() {
        documents.update(i as int, document)
    } else {
        documents.push(document)
    }
}

/// The active tab after closing tab `index`: none when no tab is left, the
/// tab now at `index` (or the last) when the active one closed, and the same
/// document as before otherwise.
pub open spec fn active_after_close(active: Option<usize>, index: usize, remaining: nat) -> Option<usize> {
    if remaining == 0 {
        None
    } else {
        match active {
            Some(a) => if a == index {
                Some(if index < remaining {
                    index
                } else {
                    (remaining - 1) as usize
                })
            } else if a > index {
                Some((a - 1) as usize)
            } else {
                Some(a)
            },
            None => None,
        }
    }
}

impl View for OpenDocuments {
    type V = (Seq<Document>, Option<usize>);

    closed spec fn view(&self) -> (Seq<Document>, Option<usize>) {
        (self.documents@, self.active)
    }
}

impl OpenDocuments {
    /// A tab is active exactly when a document is open, and it is one of them.
    #[verifier::type_invariant]
    spec fn active_is_open(self) -> bool {
        match self.active {
            Some(i) => i < self.documents@.len(),
            None => self.documents@.len() == 0,
        }
    }

    /// No open documents.
    pub fn new() -> (r: OpenDocuments)
        ensures
            r@ == (Seq::<Document>::empty(), None::<usize>),
    {
        OpenDocuments { documents: Vec::new(), active: None }
    }

    /// One open document, active.
    pub fn from_document(document: Document) -> (r: OpenDocuments)
        ensures
            r@ == (seq![document], Some(0usize)),
    {
        let mut documents: Vec<Document> = Vec::new();
        documents.push(document);
        OpenDocuments { documents, active: Some(0) }
    }

    /// Whether no document is open.
    pub fn is_empty(&self) -> (r: bool)
        ensures
            r == (self@.0.len() == 0),
    {
        self.documents.len() == 0
    }

    /// How many documents are open.
    pub fn len(&self) -> (r: usize)
        ensures
            r == self@.0.len(),
    {
        self.documents.len()
    }

    /// The active tab; there is one exactly when a document is open.
    pub fn active_index(&self) -> (r: Option<usize>)
        ensures
            r == self@.1,
            match r {
                Some(i) => i < self@.0.len(),
                None => self@.0.len() == 0,
            },
    {
        proof {
            use_type_invariant(self);
        }
        self.active
    }

    /// The active document.
    pub fn active(&self) -> (r: Option<&Document>)
        ensures
            match self@.1 {
                Some(i) => r == Some(&self@.0[i as int]),
                None => r is None,
            },
    {
        proof {
            use_type_invariant(self);
        }
        match self.active {
            Some(i) => Some(&self.documents[i]),
            None => None,
        }
    }

    /// Makes tab `index` active, if it exists.
    pub fn select(&mut self, index: usize)
        ensures
            final(self)@.0 == old(self)@.0,
            final(self)@.1 == if index < old(self)@.0.len() {
                Some(index)
            } else {
                old(self)@.1
            },
    {
        if index < self.documents.len() {
            self.active = Some(index);
        }
    }

    /// Closes tab `index`, if it exists, and gives back its document.
    pub fn close(&mut self, index: usize) -> (r: Option<Document>)
        ensures
            index < old(self)@.0.len() ==> r == Some(old(self)@.0[index as int]) && final(self)@ == (
                old(self)@.0.remove(index as int),
                active_after_close(old(self)@.1, index, (old(self)@.0.len() - 1) as nat),
            ),
            index >= old(self)@.0.len() ==> r is None && final(self)@ == old(self)@,
    {
        proof {
            use_type_invariant(&*self);
        }
        if index >= self.documents.len() {
            return None;
        }
        let (mut documents, old_active) = self.take_parts();
        let removed = documents.remove(index);
        let remaining = documents.len();
        let active = if remaining == 0 {
            None
        } else {
            match old_active {
                Some(a) => if a == index {
                    Some(if index < remaining {
                        index
                    } else {
                        remaining - 1
                    })
                } else if a > index {
                    Some(a - 1)
                } else {
                    Some(a)
                },
                None => None,
            }
        };
        *self = OpenDocuments { documents, active };
        Some(removed)
    }

    /// The tabs and the active one, leaving no tab open.
    fn take_parts(&mut self) -> (r: (Vec<Document>, Option<usize>))
        ensures
            (r.0@, r.1) == old(self)@,
            final(self)@ == (Seq::<Document>::empty(), None::<usize>),
            match r.1 {
                Some(i) => i < r.0@.len(),
                None => r.0@.len() == 0,
            },
    {
        let mut parts = OpenDocuments::new();
        std::mem::swap(&mut parts, self);
        proof {
            use_type_invariant(&parts);
        }
        let OpenDocuments { documents, active } = parts;
        (documents, active)
    }

    /// The first open document that came from `path`.
    fn index_for_path(&self, path: &str) -> (r: Option<usize>)
        ensures
            match r {
                Some(i) => index_for_path_of(self@.0, path@) == Some(i as nat),
                None => index_for_path_of(self@.0, path@) is None,
            },
    {
        let ghost docs = self@.0;
        let mut i: usize = 0;
        assert(docs.take(0) =~= Seq::<Document>::empty());
        while i < self.documents.len()
            invariant
                i <= docs.len(),
                docs == self@.0,
                docs == self.documents@,
                index_for_path_of(docs.take(i as int), path@) is None,
            decreases docs.len() - i,
        {
            assert(docs.take(i + 1).drop_last() =~= docs.take(i as int));
            let found = match self.documents[i].path() {
                Some(p) => same_path(p.as_str(), path),
                None => false,
            };
            if found {
                proof {
                    lemma_index_for_path_prefix(docs, i as int + 1, path@);
                }
                return Some(i);
            }
            i = i + 1;
        }
        assert(docs.take(docs.len() as int) =~= docs);
        None
    }

    /// Opens `document`: over the tab of the same file if one is open, else
    /// in a new tab at the end; either way it becomes active. Gives its tab.
    pub fn open_or_activate(&mut self, document: Document) -> (r: usize)
        ensures
            r == open_target_of(old(self)@.0, document),
            final(self)@ == (opened_of(old(self)@.0, document), Some(r)),
    {
        let target = match document.path() {
            Some(p) => {
                assert(document.path_view() == Some(p@));
                self.index_for_path(p.as_str())
            },
            None => None,
        };
        match target {
            Some(index) => {
                proof {
                    lemma_index_for_path_bound(self@.0, document.path_view().unwrap());
                }
                let (mut documents, _) = self.take_parts();
                documents.set(index, document);
                *self = OpenDocuments { documents, active: Some(index) };
                index
            },
            None => {
                let (mut documents, _) = self.take_parts();
                documents.push(document);
                let index = documents.len() - 1;
                *self = OpenDocuments { documents, active: Some(index) };
                index
            },
        }
    }

    /// Puts `document` in tab `index`, if it exists, leaving the active tab
    /// as it is.
    pub fn replace_at(&mut self, index: usize, document: Document)
        ensures
            index < old(self)@.0.len() ==> final(self)@ == (old(self)@.0.update(index as int, document), old(self)@.1),
            index >= old(self)@.0.len() ==> final(self)@ == old(self)@,
    {
        if index < self.documents.len() {
            let (mut documents, active) = self.take_parts();
            documents.set(index, document);
            *self = OpenDocuments { documents, active };
        }
    }

    /// Puts `document` in the active tab; with no tab open, opens it.
    pub fn replace_active(&mut self, document: Document)
        ensures
            match old(self)@.1 {
                Some(i) => final(self)@ == (old(self)@.0.update(i as int, document), Some(i)),
                None => final(self)@ == (seq![document], Some(0usize)),
            },
    {
        proof {
            use_type_invariant(&*self);
        }
        match self.active {
            Some(index) => {
                let (mut documents, _) = self.take_parts();
                documents.set(index, document);
                *self = OpenDocuments { documents, active: Some(index) };
            },
            None => {
                let r = self.open_or_activate(document);
                assert(old(self)@.0.len() == 0);
                assert(old(self)@.0.push(document) =~= seq![document]);
            },
        }
    }

    /// Each open document with its tab index, in order.
    pub fn iter(&self) -> (r: Vec<(usize, &Document)>)
        ensures
            r@.len() == self@.0.len(),
            forall|i: int| 0 <= i < r@.len() ==> (#[trigger] r@[i]).0 == i && r@[i].1 == &self@.0[i],
    {
        let mut out: Vec<(usize, &Document)> = Vec::new();
        let mut i: usize = 0;
        while i < self.documents.len()
            invariant
                i <= self.documents@.len(),
                self@.0 == self.documents@,
                out@.len() == i,
                forall|j: int| 0 <= j < i ==> (#[trigger] out@[j]).0 == j && out@[j].1 == &self@.0[j],
            decreases self.documents@.len() - i,
        {
            out.push((i, &self.documents[i]));
            i = i + 1;
        }
        out
    }
}

/// A match in a prefix is the first match of the whole.
proof fn lemma_index_for_path_prefix(documents: Seq<Document>, k: int, path: Seq<char>)
    requires
        0 < k <= documents.len(),
        index_for_path_of(documents.take(k - 1), path) is None,
        documents[k - 1].path_view() matches Some(p) && path_eq(p, path),
    ensures
        index_for_path_of(documents, path) == Some((k - 1) as nat),
    decreases documents.len() - k,
{
    assert(documents.take(k).drop_last() =~= documents.take(k - 1));
    if k == documents.len() {
        assert(documents.take(k) =~= documents);
    } else {
        lemma_index_for_path_prefix_extend(documents, k, path);
    }
}

/// Once found in a prefix, the first match stays the first.
proof fn lemma_index_for_path_prefix_extend(documents: Seq<Document>, k: int, path: Seq<char>)
    requires
        0 < k <= documents.len(),
        index_for_path_of(documents.take(k), path) is Some,
    ensures
        index_for_path_of(documents, path) == index_for_path_of(documents.take(k), path),
    decreases documents.len() - k,
{
    if k == documents.len() {
        assert(documents.take(k) =~= documents);
    } else {
        assert(documents.take(k + 1).drop_last() =~= documents.take(k));
        lemma_index_for_path_prefix_extend(documents, k + 1, path);
    }
}

impl Default for OpenDocuments {
    /// No open documents.
    fn default() -> (r: OpenDocuments)
        ensures
            r@ == (Seq::<Document>::empty(), None::<usize>),
    {
        OpenDocuments::new()
    }
}

/// Opening a document always leaves it in the active tab.
pub proof fn lemma_opened_document_is_active(documents: Seq<Document>, document: Document)
    ensures
        open_target_of(documents, document) < opened_of(documents, document).len(),
        opened_of(documents, document)[open_target_of(documents, document) as int] == document,
{
    match document.path_view() {
        Some(p) => {
            lemma_index_for_path_bound(documents, p);
        },
        None => {},
    }
}

proof fn lemma_index_for_path_bound(documents: Seq<Document>, path: Seq<char>)
    ensures
        index_for_path_of(documents, path) matches Some(i) ==> i < documents.len(),
    decreases documents.len(),
{
    if documents.len() > 0 {
        lemma_index_for_path_bound(documents.drop_last(), path);
    }
}

/// Closing a tab keeps a tab active while any is left. Closing the active
/// tab activates its neighbour: the tab that slid into its place, or, when
/// the last tab closed, the new last tab, so the active position moves by at
/// most one. Closing another tab keeps the same document active.
pub proof fn lemma_close_activates_neighbour(documents: Seq<Document>, active: usize, index: usize)
    requires
        index < documents.len(),
        active < documents.len(),
        documents.len() > 1,
    ensures
        active_after_close(Some(active), index, (documents.len() - 1) as nat) matches Some(n) && {
            &&& n < documents.len() - 1
            &&& active == index ==> n <= index && index <= n + 1
            &&& active == index && index + 1 < documents.len() ==> documents.remove(index as int)[n as int]
                == documents[index + 1]
            &&& active == index && index + 1 == documents.len() ==> documents.remove(index as int)[n as int]
                == documents[index - 1]
            &&& active != index ==> documents.remove(index as int)[n as int] == documents[active as int]
        },
{
}

} // verus!

use vstd::prelude::*;

use crate::paths::{parent, path_eq, path_parent, same_path};

verus! {

/// A change to a watched document.
#[derive(Debug, Clone, PartialEq, Eq)]
pub enum WatchEvent {
    Changed(String),
}

/// What kind of creation a file-system event reports.
#[derive(Debug, Clone, Copy, PartialEq, Eq, Structural)]
pub enum CreateKind {
    Any,
    File,
    Folder,
    Other,
}

/// Which side of a rename a file-system event reports.
#[derive(Debug, Clone, Copy, PartialEq, Eq, Structural)]
pub enum RenameMode {
    Any,
    To,
    From,
    Both,
    Other,
}

/// What kind of modification a file-system event reports.
#[derive(Debug, Clone, Copy, PartialEq, Eq, Structural)]
pub enum ModifyKind {
    Any,
    Data,
    Metadata,
    Name(RenameMode),
    Other,
}

/// What kind of removal a file-system event reports.
#[derive(Debug, Clone, Copy, PartialEq, Eq, Structural)]
pub enum RemoveKind {
    Any,
    File,
    Folder,
    Other,
}

/// The kind of a file-system event, as a file watcher reports it.
#[derive(Debug, Clone, Copy, PartialEq, Eq, Structural)]
pub enum FsEventKind {
    Any,
    Access,
    Create(CreateKind),
    Modify(ModifyKind),
    Remove(RemoveKind),
    Other,
}

/// Whether an event may have changed a file's contents: a file created, its
/// data, metadata or name changed, a file removed, or an event of unknown
/// kind. Folder events, access and other events are not.
pub open spec fn is_change_kind(kind: FsEventKind) -> bool {
    match kind {
        FsEventKind::Create(c) => c == CreateKind::File || c == CreateKind::Any,
        FsEventKind::Modify(m) => match m {
            ModifyKind::Data | ModifyKind::Metadata | ModifyKind::Any => true,
            ModifyKind::Name(r) => r != RenameMode::Other,
            ModifyKind::Other => false,
        },
        FsEventKind::Remove(r) => r == RemoveKind::File || r == RemoveKind::Any,
        FsEventKind::Any => true,
        _ => false,
    }
}

/// Whether an event may have changed a file's contents.
pub fn is_change_event(kind: &FsEventKind) -> (r: bool)
    ensures
        r == is_change_kind(*kind),
{
    match kind {
        FsEventKind::Create(c) => match c {
            CreateKind::File | CreateKind::Any => true,
            _ => false,
        },
        FsEventKind::Modify(m) => match m {
            ModifyKind::Data | ModifyKind::Metadata | ModifyKind::Any => true,
            ModifyKind::Name(r) => match r {
                RenameMode::Other => false,
                _ => true,
            },
            ModifyKind::Other => false,
        },
        FsEventKind::Remove(r) => match r {
            RemoveKind::File | RemoveKind::Any => true,
            _ => false,
        },
        FsEventKind::Any => true,
        _ => false,
    }
}

/// Whether an event concerns the watched file: a change event with the
/// file among its paths, all paths in absolute, resolved form.
pub open spec fn touches_path(kind: FsEventKind, paths: Seq<Seq<char>>, target: Seq<char>) -> bool {
    is_change_kind(kind) && exists|i: int| 0 <= i < paths.len() && path_eq(#[trigger] paths[i], target)
}

/// Whether an event concerns the watched file, given the event's paths in
/// absolute, resolved form.
pub fn event_touches_path(kind: &FsEventKind, normalized_paths: &[String], target: &str) -> (r: bool)
    ensures
        r == touches_path(*kind, normalized_paths.deep_view(), target@),
{
    if !is_change_event(kind) {
        return false;
    }
    let ghost pv = normalized_paths.deep_view();
    let mut i: usize = 0;
    while i < normalized_paths.len()
        invariant
            i <= normalized_paths@.len(),
            pv == normalized_paths.deep_view(),
            is_change_kind(*kind),
            forall|j: int| 0 <= j < i ==> !path_eq(#[trigger] pv[j], target@),
        decreases normalized_paths@.len() - i,
    {
        assert(pv[i as int] == normalized_paths@[i as int]@);
        if same_path(normalized_paths[i].as_str(), target) {
            assert(path_eq(pv[i as int], target@));
            return true;
        }
        i = i + 1;
    }
    false
}

/// The folder to watch for a file: its parent, when it has a non-empty one.
pub open spec fn watched_parent_of(path: Seq<char>) -> Option<Seq<char>> {
    match path_parent(path) {
        Some(p) => if p.len() > 0 {
            Some(p)
        } else {
            None
        },
        None => None,
    }
}

/// The folder to watch for a file; none when the path has no folder, which
/// a watcher reports as an error.
pub fn watched_parent(path: &str) -> (r: Option<String>)
    ensures
        r.deep_view() == watched_parent_of(path@),
{
    match parent(path) {
        Some(p) => if !p.as_str().is_empty() {
            Some(p)
        } else {
            None
        },
        None => None,
    }
}

} // verus!

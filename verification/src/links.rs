use vstd::prelude::*;

use crate::document::{file_type_of_path, Document, SupportedFileType};
use crate::parser::{toc_of, TocView};
use crate::paths::{is_absolute, join, parent, path_is_absolute, path_join, path_parent};
use crate::text::{
    chars_eq, chars_of, find, find_chars, push_str, slice_chars, starts_with, starts_with_chars, string_of, trim,
    trim_chars,
};

verus! {

/// Whether a link leaves the document set: a URL, a mail address or a phone
/// number.
pub open spec fn is_external_link_of(target: Seq<char>) -> bool {
    find(target, "://"@) is Some || starts_with(target, "mailto:"@) || starts_with(target, "tel:"@)
}

/// Whether a link leaves the document set: a URL, a mail address or a phone
/// number.
pub fn is_external_link_target(target: &str) -> (r: bool)
    ensures
        r == is_external_link_of(target@),
{
    let cs = chars_of(target);
    find_chars(cs.as_slice(), chars_of("://").as_slice()).is_some() || starts_with_chars(
        cs.as_slice(),
        chars_of("mailto:").as_slice(),
    ) || starts_with_chars(cs.as_slice(), chars_of("tel:").as_slice())
}

/// Where a link points: anchors, external and absolute targets as they are,
/// a relative one beside the active document when it has a folder.
pub open spec fn resolved_link_target_of(target: Seq<char>, active_path: Option<Seq<char>>) -> Seq<char> {
    if starts_with(target, seq!['#']) || is_external_link_of(target) || path_is_absolute(target) {
        target
    } else {
        match active_path {
            Some(p) => match path_parent(p) {
                Some(d) => path_join(d, target),
                None => target,
            },
            None => target,
        }
    }
}

/// Where a link points: anchors, external and absolute targets as they are,
/// a relative one beside the active document when it has a folder.
pub fn resolve_link_target(target: &str, active_path: Option<&String>) -> (r: String)
    ensures
        r@ == resolved_link_target_of(target@, active_path.deep_view()),
{
    let cs = chars_of(target);
    let hash = ['#'];
    assert(hash@ =~= seq!['#']);
    if starts_with_chars(cs.as_slice(), &hash) || is_external_link_target(target) || is_absolute(target) {
        return target.to_owned();
    }
    match active_path {
        Some(p) => match parent(p.as_str()) {
            Some(d) => join(d.as_str(), target),
            None => target.to_owned(),
        },
        None => target.to_owned(),
    }
}

/// The document a link opens in the reader: a supported file, named before
/// any `#`, absolute or beside the active document. External links, anchors
/// and blank links open none.
pub open spec fn local_document_link_of(target: Seq<char>, active_path: Option<Seq<char>>) -> Option<Seq<char>> {
    let t = trim(target);
    if is_external_link_of(t) || t.len() == 0 || starts_with(t, seq!['#']) {
        None
    } else {
        let part = match find(t, seq!['#']) {
            Some(i) => t.take(i as int),
            None => t,
        };
        if part.len() == 0 || file_type_of_path(part) is None {
            None
        } else if path_is_absolute(part) {
            Some(part)
        } else {
            match active_path {
                Some(p) => match path_parent(p) {
                    Some(d) => Some(path_join(d, part)),
                    None => None,
                },
                None => None,
            }
        }
    }
}

/// The document a link opens in the reader, if any.
pub fn resolve_local_document_link(target: &str, active_document: Option<&Document>) -> (r: Option<String>)
    ensures
        r.deep_view() == local_document_link_of(
            target@,
            match active_document {
                Some(d) => d.path_view(),
                None => None,
            },
        ),
{
    let cs = chars_of(target);
    let t = trim_chars(cs.as_slice());
    let ts = string_of(t.as_slice());
    let hash = ['#'];
    assert(hash@ =~= seq!['#']);
    if is_external_link_target(ts.as_str()) || t.len() == 0 || starts_with_chars(t.as_slice(), &hash) {
        return None;
    }
    proof {
        crate::text::lemma_find_from(t@, seq!['#'], 0);
    }
    let part = match find_chars(t.as_slice(), &hash) {
        Some(i) => slice_chars(t.as_slice(), 0, i),
        None => t,
    };
    if part.len() == 0 {
        return None;
    }
    let path = string_of(part.as_slice());
    if SupportedFileType::from_path(path.as_str()).is_none() {
        return None;
    }
    if is_absolute(path.as_str()) {
        return Some(path);
    }
    match active_document {
        Some(d) => match d.path() {
            Some(p) => match parent(p.as_str()) {
                Some(dir) => Some(join(dir.as_str(), path.as_str())),
                None => None,
            },
            None => None,
        },
        None => None,
    }
}

/// A link target checked before it is handed to the platform opener: a
/// blank one is refused.
pub open spec fn open_link_target_of(target: Seq<char>) -> Result<Seq<char>, Seq<char>> {
    if trim(target).len() == 0 {
        Err("cannot open an empty link"@)
    } else {
        Ok(target)
    }
}

/// Checks a link target before it is handed to the platform opener: a blank
/// one is refused, any other is given back to open.
pub fn open_link_target(target: String) -> (r: Result<String, String>)
    ensures
        match open_link_target_of(target@) {
            Ok(t) => r matches Ok(s) && s@ == t,
            Err(e) => r matches Err(s) && s@ == e,
        },
{
    let cs = chars_of(target.as_str());
    let t = trim_chars(cs.as_slice());
    if t.len() == 0 {
        let mut message = String::new();
        push_str(&mut message, "cannot open an empty link");
        Err(message)
    } else {
        Ok(target)
    }
}

/// What following a link does.
#[derive(Debug, Clone, PartialEq, Eq)]
pub enum LinkAction {
    /// Jumps to the heading with this anchor.
    Anchor(String),
    /// Opens this document in a tab.
    OpenDocument(String),
    /// Hands this target to the platform opener.
    OpenExternal(String),
}

/// What following a link does, as values.
pub enum LinkActionView {
    Anchor(Seq<char>),
    OpenDocument(Seq<char>),
    OpenExternal(Seq<char>),
}

impl DeepView for LinkAction {
    type V = LinkActionView;

    open spec fn deep_view(&self) -> LinkActionView {
        match self {
            LinkAction::Anchor(a) => LinkActionView::Anchor(a@),
            LinkAction::OpenDocument(p) => LinkActionView::OpenDocument(p@),
            LinkAction::OpenExternal(t) => LinkActionView::OpenExternal(t@),
        }
    }
}

/// What following a link does: a `#` anchor jumps within the document, a
/// link to a supported document opens it, anything else goes to the
/// platform opener, resolved beside the active document.
pub open spec fn link_action_of(target: Seq<char>, active_path: Option<Seq<char>>) -> LinkActionView {
    if starts_with(target, seq!['#']) {
        LinkActionView::Anchor(target.drop_first())
    } else {
        match local_document_link_of(target, active_path) {
            Some(p) => LinkActionView::OpenDocument(p),
            None => LinkActionView::OpenExternal(resolved_link_target_of(target, active_path)),
        }
    }
}

/// What following a link does.
pub fn link_action(target: &str, active_document: Option<&Document>) -> (r: LinkAction)
    ensures
        r.deep_view() == link_action_of(
            target@,
            match active_document {
                Some(d) => d.path_view(),
                None => None,
            },
        ),
{
    let cs = chars_of(target);
    let hash = ['#'];
    assert(hash@ =~= seq!['#']);
    if starts_with_chars(cs.as_slice(), &hash) {
        let rest = slice_chars(cs.as_slice(), 1, cs.len());
        assert(rest@ =~= target@.drop_first());
        return LinkAction::Anchor(string_of(rest.as_slice()));
    }
    match resolve_local_document_link(target, active_document) {
        Some(p) => LinkAction::OpenDocument(p),
        None => {
            let active_path = match active_document {
                Some(d) => d.path(),
                None => None,
            };
            LinkAction::OpenExternal(resolve_link_target(target, active_path))
        },
    }
}

/// The block of the first heading whose anchor is `anchor`.
pub open spec fn anchor_block_of(toc: Seq<TocView>, anchor: Seq<char>) -> Option<usize>
    decreases toc.len(),
{
    if toc.len() == 0 {
        None
    } else if toc[0].slug == anchor {
        Some(toc[0].block_index)
    } else {
        anchor_block_of(toc.drop_first(), anchor)
    }
}

/// The block of the first heading of a document whose anchor is `anchor`.
pub fn anchor_block_index(document: &Document, anchor: &str) -> (r: Option<usize>)
    ensures
        r == anchor_block_of(toc_of(document.parsed_view()), anchor@),
{
    let toc = document.parsed().toc();
    let ghost tv = toc.deep_view();
    let key = chars_of(anchor);
    let mut i: usize = 0;
    assert(tv.skip(0) =~= tv);
    while i < toc.len()
        invariant
            i <= toc@.len(),
            tv == toc.deep_view(),
            tv == toc_of(document.parsed_view()),
            key@ == anchor@,
            anchor_block_of(tv, anchor@) == anchor_block_of(tv.skip(i as int), anchor@),
        decreases toc@.len() - i,
    {
        assert(tv.skip(i as int)[0] == toc@[i as int].deep_view());
        assert(tv.skip(i as int).drop_first() =~= tv.skip(i + 1));
        let slug = chars_of(toc[i].slug.as_str());
        if chars_eq(slug.as_slice(), key.as_slice()) {
            return Some(toc[i].block_index);
        }
        i = i + 1;
    }
    assert(tv.skip(i as int) =~= Seq::<TocView>::empty());
    None
}

/// The message for a link to an anchor that no heading has.
pub fn missing_anchor_message(anchor: &str) -> (r: String)
    ensures
        r@ == "heading anchor not found: #"@ + anchor@,
{
    let mut out = String::new();
    push_str(&mut out, "heading anchor not found: #");
    push_str(&mut out, anchor);
    out
}

} // verus!

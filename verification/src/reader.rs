use vstd::prelude::*;

use crate::document::Document;
use crate::open_documents::OpenDocuments;
use crate::parser::{Block, BlockView};
use crate::pdf::{file_lookup, local_image_path, local_image_path_of, lookup_file, ImageFile, ImageFileInfo};
use crate::text::{chars_eq, chars_of, find, find_chars, starts_with, starts_with_chars};

verus! {

/// The state of an image fetched from the web.
#[derive(Debug, Clone)]
pub enum RemoteImage {
    Loading,
    Loaded(Vec<u8>),
    Failed(String),
}

/// A remote image as a value.
pub enum RemoteImageView {
    Loading,
    Loaded(Seq<u8>),
    Failed(Seq<char>),
}

impl DeepView for RemoteImage {
    type V = RemoteImageView;

    open spec fn deep_view(&self) -> RemoteImageView {
        match self {
            RemoteImage::Loading => RemoteImageView::Loading,
            RemoteImage::Loaded(bytes) => RemoteImageView::Loaded(bytes@),
            RemoteImage::Failed(message) => RemoteImageView::Failed(message@),
        }
    }
}

/// Whether an image source is a URL or inline data rather than a file.
pub open spec fn is_remote_image_url_of(url: Seq<char>) -> bool {
    find(url, "://"@) is Some || starts_with(url, "data:"@)
}

/// Whether an image source is a web address that can be fetched.
pub open spec fn is_fetchable_remote_image_url_of(url: Seq<char>) -> bool {
    starts_with(url, "https://"@) || starts_with(url, "http://"@)
}

/// Whether an image source is a URL or inline data rather than a file.
pub fn is_remote_image_url(url: &str) -> (r: bool)
    ensures
        r == is_remote_image_url_of(url@),
{
    let cs = chars_of(url);
    find_chars(cs.as_slice(), chars_of("://").as_slice()).is_some() || starts_with_chars(
        cs.as_slice(),
        chars_of("data:").as_slice(),
    )
}

/// Whether an image source is an `http` or `https` address.
pub fn is_fetchable_remote_image_url(url: &str) -> (r: bool)
    ensures
        r == is_fetchable_remote_image_url_of(url@),
{
    let cs = chars_of(url);
    starts_with_chars(cs.as_slice(), chars_of("https://").as_slice()) || starts_with_chars(
        cs.as_slice(),
        chars_of("http://").as_slice(),
    )
}

/// The local file an image shows, when it is one.
pub open spec fn resolved_image_path_of(
    url: Seq<char>,
    document_path: Option<Seq<char>>,
    files: Seq<(Seq<char>, ImageFile)>,
) -> Option<Seq<char>> {
    match local_image_path_of(url, document_path) {
        Some(p) => if file_lookup(files, p) is File {
            Some(p)
        } else {
            None
        },
        None => None,
    }
}

/// The local file an image shows: an absolute path as it is, a relative one
/// beside the document, and only where `files` says that a file is there.
/// Blank sources, URLs and inline data have none.
pub fn resolve_image_path(url: &str, document_path: Option<&String>, files: &[ImageFileInfo]) -> (r: Option<String>)
    ensures
        r.deep_view() == resolved_image_path_of(url@, document_path.deep_view(), files.deep_view()),
{
    match local_image_path(url, document_path) {
        Some(p) => match lookup_file(files, p.as_str()) {
            ImageFile::File { .. } => Some(p),
            _ => None,
        },
        None => None,
    }
}

/// The fetchable image addresses of a document's blocks, in order.
pub open spec fn remote_image_urls_of(blocks: Seq<BlockView>) -> Seq<Seq<char>>
    decreases blocks.len(),
{
    if blocks.len() == 0 {
        Seq::empty()
    } else {
        remote_image_urls_of(blocks.drop_last()) + match blocks.last() {
            BlockView::Image { url, .. } => if is_fetchable_remote_image_url_of(url) {
                seq![url]
            } else {
                Seq::empty()
            },
            _ => Seq::empty(),
        }
    }
}

/// The fetchable image addresses of a document, in order, repeats included.
pub fn document_remote_image_urls(document: &Document) -> (r: Vec<String>)
    ensures
        r.deep_view() == remote_image_urls_of(document.parsed_view()),
{
    let parsed = document.parsed();
    let ghost bv = parsed.deep_view();
    let mut out: Vec<String> = Vec::new();
    let mut i: usize = 0;
    while i < parsed.blocks.len()
        invariant
            i <= parsed.blocks@.len(),
            bv == parsed.deep_view(),
            bv == document.parsed_view(),
            bv.len() == parsed.blocks@.len(),
            out.deep_view() == remote_image_urls_of(bv.take(i as int)),
        decreases parsed.blocks@.len() - i,
    {
        assert(bv.take(i + 1).drop_last() =~= bv.take(i as int));
        assert(bv[i as int] == parsed.blocks@[i as int].deep_view());
        match &parsed.blocks[i] {
            Block::Image { url, .. } => {
                if is_fetchable_remote_image_url(url.as_str()) {
                    let ghost before = out.deep_view();
                    out.push(url.clone());
                    assert(out.deep_view() =~= before.push(url@));
                }
            },
            _ => {},
        }
        assert(out.deep_view() =~= remote_image_urls_of(bv.take(i + 1)));
        i = i + 1;
    }
    assert(bv.take(bv.len() as int) =~= bv);
    out
}


/// Whether no address occurs twice.
pub open spec fn distinct_keys(entries: Seq<(Seq<char>, RemoteImageView)>) -> bool {
    forall|i: int, j: int| 0 <= i < j < entries.len() ==> #[trigger] entries[i].0 != #[trigger] entries[j].0
}

/// The position of an address among the entries, the last one if it
/// occurs more than once.
pub open spec fn key_index(entries: Seq<(Seq<char>, RemoteImageView)>, url: Seq<char>) -> Option<nat>
    decreases entries.len(),
{
    if entries.len() == 0 {
        None
    } else if entries.last().0 == url {
        Some((entries.len() - 1) as nat)
    } else {
        key_index(entries.drop_last(), url)
    }
}

/// The image stored for an address.
pub open spec fn image_for(entries: Seq<(Seq<char>, RemoteImageView)>, url: Seq<char>) -> Option<RemoteImageView> {
    match key_index(entries, url) {
        Some(i) => Some(entries[i as int].1),
        None => None,
    }
}

/// The entries after storing an image for an address: in its place when the
/// address is there, else at the end.
pub open spec fn with_image(
    entries: Seq<(Seq<char>, RemoteImageView)>,
    url: Seq<char>,
    image: RemoteImageView,
) -> Seq<(Seq<char>, RemoteImageView)> {
    match key_index(entries, url) {
        Some(i) => entries.update(i as int, (url, image)),
        None => entries.push((url, image)),
    }
}

proof fn lemma_key_index(entries: Seq<(Seq<char>, RemoteImageView)>, url: Seq<char>)
    requires
        distinct_keys(entries),
    ensures
        match key_index(entries, url) {
            Some(i) => i < entries.len() && entries[i as int].0 == url,
            None => forall|j: int| 0 <= j < entries.len() ==> (#[trigger] entries[j]).0 != url,
        },
        forall|j: int| 0 <= j < entries.len() && (#[trigger] entries[j]).0 == url ==> key_index(entries, url) == Some(
            j as nat,
        ),
    decreases entries.len(),
{
    if entries.len() > 0 {
        let rest = entries.drop_last();
        assert forall|a: int, b: int| 0 <= a < b < rest.len() implies #[trigger] rest[a].0 != #[trigger] rest[b].0 by {
            assert(rest[a] == entries[a] && rest[b] == entries[b]);
        }
        lemma_key_index(rest, url);
        assert(entries.last() == entries[entries.len() - 1]);
        assert forall|j: int| 0 <= j < entries.len() && (#[trigger] entries[j]).0 == url implies key_index(entries, url)
            == Some(j as nat) by {
            if j < rest.len() {
                assert(rest[j] == entries[j]);
            }
        }
        if entries.last().0 != url {
            match key_index(rest, url) {
                Some(i) => {
                    assert(rest[i as int] == entries[i as int]);
                },
                None => {
                    assert forall|j: int| 0 <= j < entries.len() implies (#[trigger] entries[j]).0 != url by {
                        if j < rest.len() {
                            assert(rest[j] == entries[j]);
                        }
                    }
                },
            }
        }
    }
}

/// Images fetched from the web, by address, each address once.
#[derive(Debug)]
pub struct RemoteImages {
    entries: Vec<(String, RemoteImage)>,
}

impl View for RemoteImages {
    type V = Seq<(Seq<char>, RemoteImageView)>;

    closed spec fn view(&self) -> Seq<(Seq<char>, RemoteImageView)> {
        self.entries.deep_view()
    }
}

proof fn lemma_with_image_distinct(entries: Seq<(Seq<char>, RemoteImageView)>, url: Seq<char>, image: RemoteImageView)
    requires
        distinct_keys(entries),
    ensures
        distinct_keys(with_image(entries, url, image)),
{
    lemma_key_index(entries, url);
    let u = with_image(entries, url, image);
    assert forall|a: int, b: int| 0 <= a < b < u.len() implies #[trigger] u[a].0 != #[trigger] u[b].0 by {
        match key_index(entries, url) {
            Some(i) => {
                assert(u[a].0 == entries[a].0 && u[b].0 == entries[b].0);
            },
            None => {
                if b == entries.len() {
                    assert(u[a] == entries[a]);
                } else {
                    assert(u[a] == entries[a] && u[b] == entries[b]);
                }
            },
        }
    }
}

impl RemoteImages {
    #[verifier::type_invariant]
    spec fn keys_distinct(self) -> bool {
        distinct_keys(self.entries.deep_view())
    }

    /// No images.
    pub fn new() -> (r: RemoteImages)
        ensures
            r@ == Seq::<(Seq<char>, RemoteImageView)>::empty(),
    {
        let r = RemoteImages { entries: Vec::new() };
        assert(r@ =~= Seq::<(Seq<char>, RemoteImageView)>::empty());
        r
    }

    /// How many addresses have an image.
    pub fn len(&self) -> (r: usize)
        ensures
            r == self@.len(),
    {
        self.entries.len()
    }

    /// Whether there are none.
    pub fn is_empty(&self) -> (r: bool)
        ensures
            r == (self@.len() == 0),
    {
        self.entries.len() == 0
    }

    /// The image of an address.
    pub fn get(&self, url: &str) -> (r: Option<&RemoteImage>)
        ensures
            match image_for(self@, url@) {
                Some(v) => r matches Some(image) && image.deep_view() == v,
                None => r is None,
            },
    {
        proof {
            use_type_invariant(self);
            lemma_key_index(self@, url@);
        }
        let key = chars_of(url);
        let mut i: usize = 0;
        while i < self.entries.len()
            invariant
                i <= self.entries@.len(),
                key@ == url@,
                distinct_keys(self@),
                self@ == self.entries.deep_view(),
                forall|j: int| 0 <= j < i ==> (#[trigger] self@[j]).0 != url@,
            decreases self.entries@.len() - i,
        {
            assert(self@[i as int] == self.entries@[i as int].deep_view());
            let name = chars_of(self.entries[i].0.as_str());
            if chars_eq(name.as_slice(), key.as_slice()) {
                proof {
                    lemma_key_index(self@, url@);
                    assert(self@[i as int].0 == url@);
                }
                return Some(&self.entries[i].1);
            }
            i = i + 1;
        }
        None
    }

    /// Whether an address has an image.
    pub fn contains_key(&self, url: &str) -> (r: bool)
        ensures
            r == (image_for(self@, url@) is Some),
    {
        self.get(url).is_some()
    }

    /// Stores the image of an address, replacing the one it had.
    pub fn insert(&mut self, url: String, image: RemoteImage)
        ensures
            final(self)@ == with_image(old(self)@, url@, image.deep_view()),
    {
        proof {
            use_type_invariant(&*self);
        }
        let ghost before = self@;
        let ghost v = image.deep_view();
        proof {
            lemma_key_index(before, url@);
            lemma_with_image_distinct(before, url@, v);
        }
        let mut entries: Vec<(String, RemoteImage)> = Vec::new();
        std::mem::swap(&mut entries, &mut self.entries);
        let mut i: usize = 0;
        while i < entries.len()
            invariant
                i <= entries@.len(),
                before == entries.deep_view(),
                before == old(self)@,
                distinct_keys(before),
                v == image.deep_view(),
                distinct_keys(with_image(before, url@, v)),
                forall|j: int| 0 <= j < before.len() && (#[trigger] before[j]).0 == url@ ==> key_index(before, url@) == Some(
                    j as nat,
                ),
                key_index(before, url@) is None ==> with_image(before, url@, v) == before.push((url@, v)),
                forall|j: int| 0 <= j < i ==> (#[trigger] before[j]).0 != url@,
            decreases entries@.len() - i,
        {
            assert(before[i as int] == entries@[i as int].deep_view());
            if entries[i].0 == url {
                assert(before[i as int].0 == url@);
                assert(key_index(before, url@) == Some(i as nat));
                let ghost old_entries = entries@;
                let pair = (url, image);
                assert(pair.deep_view() == (url@, v));
                entries.set(i, pair);
                assert forall|j: int| 0 <= j < entries@.len() implies #[trigger] entries.deep_view()[j] == before.update(
                    i as int,
                    (url@, v),
                )[j] by {
                    if j != i {
                        assert(entries@[j] == old_entries[j]);
                    }
                }
                assert(entries.deep_view() =~= before.update(i as int, (url@, v)));
                assert(entries.deep_view() == with_image(before, url@, v));
                self.entries = entries;
                assert(self@ == with_image(before, url@, v));
                return;
            }
            i = i + 1;
        }
        entries.push((url, image));
        assert(entries.deep_view() =~= before.push((url@, v)));
        self.entries = entries;
    }
}


/// Reading an address back after storing an image for it gives that image,
/// and leaves every other address as it was.
pub proof fn lemma_image_after_insert(
    entries: Seq<(Seq<char>, RemoteImageView)>,
    url: Seq<char>,
    image: RemoteImageView,
    other: Seq<char>,
)
    requires
        distinct_keys(entries),
    ensures
        image_for(with_image(entries, url, image), url) == Some(image),
        other != url ==> image_for(with_image(entries, url, image), other) == image_for(entries, other),
        with_image(entries, url, image).len() == entries.len() + if image_for(entries, url) is Some {
            0int
        } else {
            1int
        },
{
    lemma_key_index(entries, url);
    lemma_key_index(entries, other);
    lemma_with_image_distinct(entries, url, image);
    let u = with_image(entries, url, image);
    lemma_key_index(u, url);
    lemma_key_index(u, other);
    match key_index(entries, url) {
        Some(i) => {
            assert(u[i as int].0 == url);
        },
        None => {
            assert(u[entries.len() as int].0 == url);
        },
    }
    if other != url {
        match key_index(entries, other) {
            Some(j) => {
                assert(u[j as int] == entries[j as int]);
            },
            None => {
                assert forall|j: int| 0 <= j < u.len() implies (#[trigger] u[j]).0 != other by {
                    if j < entries.len() {
                        match key_index(entries, url) {
                            Some(i) => {
                                if j != i {
                                    assert(u[j] == entries[j]);
                                }
                            },
                            None => {
                                assert(u[j] == entries[j]);
                            },
                        }
                    }
                }
            },
        }
    }
}

/// The entries after marking each address of a list as loading, in order.
pub open spec fn placeholders_of(urls: Seq<Seq<char>>) -> Seq<(Seq<char>, RemoteImageView)>
    decreases urls.len(),
{
    if urls.len() == 0 {
        Seq::empty()
    } else {
        with_image(placeholders_of(urls.drop_last()), urls.last(), RemoteImageView::Loading)
    }
}

/// The fetchable images of a document, each address once and loading.
pub fn remote_image_placeholders(document: Option<&Document>) -> (r: RemoteImages)
    ensures
        r@ == placeholders_of(
            match document {
                Some(d) => remote_image_urls_of(d.parsed_view()),
                None => Seq::empty(),
            },
        ),
{
    let mut images = RemoteImages::new();
    match document {
        Some(d) => {
            let urls = document_remote_image_urls(d);
            let ghost uv = urls.deep_view();
            let mut i: usize = 0;
            assert(uv.take(0) =~= Seq::<Seq<char>>::empty());
            while i < urls.len()
                invariant
                    i <= urls@.len(),
                    uv == urls.deep_view(),
                    images@ == placeholders_of(uv.take(i as int)),
                decreases urls@.len() - i,
            {
                assert(uv.take(i + 1).drop_last() =~= uv.take(i as int));
                assert(uv[i as int] == urls@[i as int]@);
                images.insert(urls[i].clone(), RemoteImage::Loading);
                i = i + 1;
            }
            assert(uv.take(uv.len() as int) =~= uv);
        },
        None => {},
    }
    images
}

/// Every address of a document's fetchable images has a loading entry, and
/// no address has two.
pub proof fn lemma_placeholders_cover_urls(urls: Seq<Seq<char>>)
    ensures
        distinct_keys(placeholders_of(urls)),
        forall|k: int| 0 <= k < urls.len() ==> image_for(placeholders_of(urls), #[trigger] urls[k]) == Some(
            RemoteImageView::Loading,
        ),
    decreases urls.len(),
{
    if urls.len() > 0 {
        let rest = urls.drop_last();
        lemma_placeholders_cover_urls(rest);
        lemma_with_image_distinct(placeholders_of(rest), urls.last(), RemoteImageView::Loading);
        assert forall|k: int| 0 <= k < urls.len() implies image_for(placeholders_of(urls), #[trigger] urls[k]) == Some(
            RemoteImageView::Loading,
        ) by {
            lemma_image_after_insert(placeholders_of(rest), urls.last(), RemoteImageView::Loading, urls[k]);
            if k < rest.len() {
                assert(rest[k] == urls[k]);
            }
        }
    }
}

/// The addresses of a list, with those of another appended that it lacks.
pub open spec fn with_new_urls(urls: Seq<Seq<char>>, more: Seq<Seq<char>>) -> Seq<Seq<char>>
    decreases more.len(),
{
    if more.len() == 0 {
        urls
    } else {
        let before = with_new_urls(urls, more.drop_last());
        if before.contains(more.last()) {
            before
        } else {
            before.push(more.last())
        }
    }
}

fn contains_url(urls: &Vec<String>, url: &String) -> (r: bool)
    ensures
        r == urls.deep_view().contains(url@),
{
    let ghost uv = urls.deep_view();
    let mut i: usize = 0;
    while i < urls.len()
        invariant
            i <= urls@.len(),
            uv == urls.deep_view(),
            forall|j: int| 0 <= j < i ==> uv[j] != url@,
        decreases urls@.len() - i,
    {
        if urls[i] == *url {
            assert(uv[i as int] == url@);
            return true;
        }
        i = i + 1;
    }
    false
}

/// Appends the fetchable image addresses of a document that the list lacks.
pub fn collect_document_remote_image_urls(document: &Document, urls: &mut Vec<String>)
    ensures
        final(urls).deep_view() == with_new_urls(old(urls).deep_view(), remote_image_urls_of(document.parsed_view())),
{
    let found = document_remote_image_urls(document);
    let ghost fv = found.deep_view();
    let ghost start = urls.deep_view();
    let mut i: usize = 0;
    assert(fv.take(0) =~= Seq::<Seq<char>>::empty());
    while i < found.len()
        invariant
            i <= found@.len(),
            fv == found.deep_view(),
            urls.deep_view() == with_new_urls(start, fv.take(i as int)),
        decreases found@.len() - i,
    {
        assert(fv.take(i + 1).drop_last() =~= fv.take(i as int));
        assert(fv[i as int] == found@[i as int]@);
        if !contains_url(urls, &found[i]) {
            let ghost before = urls.deep_view();
            urls.push(found[i].clone());
            assert(urls.deep_view() =~= before.push(fv[i as int]));
        }
        i = i + 1;
    }
    assert(fv.take(fv.len() as int) =~= fv);
}


/// The addresses of the fetchable images on screen: those of the active
/// document, then those of the split document that it lacks.
pub open spec fn visible_urls_of(documents: Seq<Document>, active: Option<usize>, split: Option<usize>) -> Seq<Seq<char>> {
    let first = match active {
        Some(i) => with_new_urls(Seq::empty(), remote_image_urls_of(documents[i as int].parsed_view())),
        None => Seq::empty(),
    };
    match split {
        Some(j) => if j < documents.len() {
            with_new_urls(first, remote_image_urls_of(documents[j as int].parsed_view()))
        } else {
            first
        },
        None => first,
    }
}

/// The addresses of the fetchable images on screen, each once.
pub fn visible_remote_image_urls(documents: &OpenDocuments, split_document_index: Option<usize>) -> (r: Vec<String>)
    ensures
        r.deep_view() == visible_urls_of(documents@.0, documents@.1, split_document_index),
{
    let mut urls: Vec<String> = Vec::new();
    assert(urls.deep_view() =~= Seq::<Seq<char>>::empty());
    if let Some(document) = documents.active() {
        collect_document_remote_image_urls(document, &mut urls);
    }
    if let Some(split) = split_document_index {
        if split < documents.len() {
            let all = documents.iter();
            collect_document_remote_image_urls(all[split].1, &mut urls);
        }
    }
    urls
}

} // verus!

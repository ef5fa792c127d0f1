use paperview::open_documents::OpenDocuments;
use paperview::pdf::{ImageFile, ImageFileInfo};
use paperview::reader::{
    collect_document_remote_image_urls, document_remote_image_urls, is_fetchable_remote_image_url,
    is_remote_image_url, remote_image_placeholders, resolve_image_path, visible_remote_image_urls, RemoteImage,
    RemoteImages,
};
use paperview::Document;

#[test]
fn remote_image_urls_do_not_resolve_to_local_previews() {
    assert_eq!(resolve_image_path("https://example.com/image.png", None, &[]), None);
    assert_eq!(resolve_image_path("data:image/png;base64,AAAA", None, &[]), None);
}

#[test]
fn only_http_urls_are_fetchable_remote_images() {
    assert!(is_fetchable_remote_image_url("https://example.com/image.png"));
    assert!(is_fetchable_remote_image_url("http://example.com/image.png"));
    assert!(!is_fetchable_remote_image_url("data:image/png;base64,AAAA"));
    assert!(!is_fetchable_remote_image_url("file:///tmp/image.png"));
    assert!(!is_fetchable_remote_image_url("assets/image.png"));
}

#[test]
fn relative_image_paths_resolve_from_document_parent() {
    let document_path = "/tmp/image-resolve/doc.md".to_owned();
    let files = vec![ImageFileInfo {
        path: "/tmp/image-resolve/assets/preview.png".to_owned(),
        file: ImageFile::File { len: 24 },
    }];

    assert_eq!(
        resolve_image_path("assets/preview.png", Some(&document_path), &files),
        Some("/tmp/image-resolve/assets/preview.png".to_owned())
    );
    assert_eq!(resolve_image_path("assets/missing.png", Some(&document_path), &files), None);
}

#[test]
fn image_paths_that_are_not_files_do_not_resolve() {
    let files = vec![ImageFileInfo { path: "/tmp/dir".to_owned(), file: ImageFile::NotFile }];
    assert_eq!(resolve_image_path("/tmp/dir", None, &files), None);
    assert_eq!(resolve_image_path("   ", None, &files), None);
}

#[test]
fn recognizes_remote_image_sources() {
    assert!(is_remote_image_url("ftp://host/a.png"));
    assert!(is_remote_image_url("data:image/png;base64,AAAA"));
    assert!(!is_remote_image_url("assets/a.png"));
}

#[test]
fn remote_image_placeholders_deduplicate_urls() {
    let document = Document::from_source(
        "# Remote\n\n![One](https://example.com/image.png)\n\n![Two](https://example.com/image.png)",
    );
    let images = remote_image_placeholders(Some(&document));

    assert_eq!(images.len(), 1);
    assert!(matches!(images.get("https://example.com/image.png"), Some(RemoteImage::Loading)));
}

#[test]
fn remote_images_replace_an_address_in_place() {
    let mut images = RemoteImages::new();
    assert!(images.is_empty());
    images.insert("a".to_owned(), RemoteImage::Loading);
    images.insert("b".to_owned(), RemoteImage::Loading);
    images.insert("a".to_owned(), RemoteImage::Loaded(vec![1, 2]));
    assert_eq!(images.len(), 2);
    assert!(matches!(images.get("a"), Some(RemoteImage::Loaded(bytes)) if bytes == &vec![1, 2]));
    assert!(matches!(images.get("b"), Some(RemoteImage::Loading)));
    assert!(images.get("c").is_none());
    assert!(images.contains_key("b"));
    assert!(remote_image_placeholders(None).is_empty());
}

#[test]
fn collects_each_remote_address_once() {
    let first = Document::from_source("![A](https://a.example/1.png)\n\n![L](local.png)\n\n![B](http://b.example/2.png)");
    let second = Document::from_source("![A](https://a.example/1.png)\n\n![C](https://c.example/3.png)");
    assert_eq!(
        document_remote_image_urls(&first),
        vec!["https://a.example/1.png".to_owned(), "http://b.example/2.png".to_owned()]
    );
    let mut urls = Vec::new();
    collect_document_remote_image_urls(&first, &mut urls);
    collect_document_remote_image_urls(&second, &mut urls);
    assert_eq!(
        urls,
        vec![
            "https://a.example/1.png".to_owned(),
            "http://b.example/2.png".to_owned(),
            "https://c.example/3.png".to_owned()
        ]
    );

    let mut documents = OpenDocuments::from_document(first);
    documents.open_or_activate(second.with_path("second.md"));
    documents.select(0);
    assert_eq!(visible_remote_image_urls(&documents, Some(1)).len(), 3);
    assert_eq!(visible_remote_image_urls(&documents, None).len(), 2);
    assert_eq!(visible_remote_image_urls(&documents, Some(7)).len(), 2);
}

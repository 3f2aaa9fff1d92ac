//! Content assembly on in-memory archives: spine order, image inlining for
//! plain and vector-image references, fault tolerance, and traversal
//! rejection.

use std::io::Write;

use epub_extract::content::get_epub_content;
use epub_extract::errors::{ArchiveError, EpubError};

fn build_zip(entries: &[(&str, &[u8])]) -> Vec<u8> {
    let mut w = zip::ZipWriter::new(std::io::Cursor::new(Vec::new()));
    let opts = zip::write::SimpleFileOptions::default();
    for (name, data) in entries {
        w.start_file(*name, opts).unwrap();
        w.write_all(data).unwrap();
    }
    w.finish().unwrap().into_inner()
}

const CONTAINER: &str = r#"<?xml version="1.0"?>
<container version="1.0">
  <rootfiles>
    <rootfile full-path="OEBPS/content.opf" media-type="application/oebps-package+xml"/>
  </rootfiles>
</container>"#;

const OPF: &str = r#"<package>
  <metadata xmlns:dc="http://purl.org/dc/elements/1.1/">
    <dc:title>Sample Book</dc:title>
  </metadata>
  <manifest>
    <item id="ch1" href="chapter1.xhtml" media-type="application/xhtml+xml"/>
    <item id="ch2" href="chapter2.xhtml" media-type="application/xhtml+xml"/>
    <item id="img1" href="images/pic.png" media-type="image/png"/>
    <item id="cov" href="cover.jpg" media-type="image/jpeg"/>
  </manifest>
  <spine>
    <itemref idref="ch1"/>
    <itemref idref="ch2"/>
  </spine>
</package>"#;

const CH1: &str = r#"<html><body><p>First chapter</p><img src="images/pic.png"/></body></html>"#;
const CH2: &str =
    r#"<html><body><svg><image xlink:href="cover.jpg" width="5"/></svg></body></html>"#;
const PNG: &[u8] = b"\x89PNG-fake-image-bytes";
const JPG: &[u8] = b"JPEGDATA-cover-bytes";

fn sample_epub() -> Vec<u8> {
    build_zip(&[
        ("mimetype", b"application/epub+zip"),
        ("META-INF/container.xml", CONTAINER.as_bytes()),
        ("OEBPS/content.opf", OPF.as_bytes()),
        ("OEBPS/chapter1.xhtml", CH1.as_bytes()),
        ("OEBPS/chapter2.xhtml", CH2.as_bytes()),
        ("OEBPS/images/pic.png", PNG),
        ("OEBPS/cover.jpg", JPG),
    ])
}

#[test]
fn content_is_nonempty_markup() {
    let epub = sample_epub();
    let content = get_epub_content(&epub).expect("should assemble");
    assert!(!content.is_empty(), "Content should not be empty");
    assert!(content.contains('<') && content.contains('>'));
}

#[test]
fn content_keeps_spine_order() {
    let epub = sample_epub();
    let content = get_epub_content(&epub).expect("should assemble");
    let first = content.find("First chapter").expect("chapter one present");
    let second = content.find("<svg>").expect("chapter two present");
    assert!(first < second, "spine order must be kept");
}

#[test]
fn content_inlines_img_src() {
    let epub = sample_epub();
    let content = get_epub_content(&epub).expect("should assemble");
    assert!(
        !content.contains("src=\"images/pic.png\""),
        "relative image path should be rewritten"
    );
    assert!(content.contains("data:image/png;base64,iVBORy1mYWtlLWltYWdlLWJ5dGVz"));
}

#[test]
fn content_inlines_svg_image_href() {
    let epub = sample_epub();
    let content = get_epub_content(&epub).expect("should assemble");
    assert!(
        !content.contains("href=\"cover.jpg\""),
        "Should have replaced the relative path"
    );
    assert!(content.contains("data:image/"), "Should contain data URIs");
    assert!(content.contains("data:image/jpeg;base64,SlBFR0RBVEEtY292ZXItYnl0ZXM="));
}

#[test]
fn content_leaves_unresolvable_reference_unchanged() {
    let ch = r#"<html><body><img src="missing.png"/><img src="https://example.com/x.png"/></body></html>"#;
    let opf = r#"<package>
  <dc:title>T</dc:title>
  <manifest>
    <item id="ch1" href="c.xhtml" media-type="application/xhtml+xml"/>
  </manifest>
  <spine><itemref idref="ch1"/></spine>
</package>"#;
    let epub = build_zip(&[
        ("META-INF/container.xml", CONTAINER.as_bytes()),
        ("OEBPS/content.opf", opf.as_bytes()),
        ("OEBPS/c.xhtml", ch.as_bytes()),
    ]);
    let content = get_epub_content(&epub).expect("one broken reference must not fail the book");
    assert!(content.contains("src=\"missing.png\""));
    assert!(content.contains("src=\"https://example.com/x.png\""));
}

#[test]
fn content_mime_falls_back_to_extension() {
    let ch = r#"<html><img src="art.GIF"/></html>"#;
    let opf = r#"<package>
  <dc:title>T</dc:title>
  <manifest>
    <item id="ch1" href="c.xhtml" media-type="application/xhtml+xml"/>
  </manifest>
  <spine><itemref idref="ch1"/></spine>
</package>"#;
    let epub = build_zip(&[
        ("META-INF/container.xml", CONTAINER.as_bytes()),
        ("OEBPS/content.opf", opf.as_bytes()),
        ("OEBPS/c.xhtml", ch.as_bytes()),
        ("OEBPS/art.GIF", b"GIF89a-fake"),
    ]);
    let content = get_epub_content(&epub).expect("should assemble");
    assert!(
        content.contains("data:image/gif;base64,"),
        "extension should decide the type when the manifest declares none for it"
    );
}

#[test]
fn content_rejects_traversal_in_spine() {
    let opf = r#"<package>
  <dc:title>T</dc:title>
  <manifest>
    <item id="ch1" href="../../outside.xhtml" media-type="application/xhtml+xml"/>
  </manifest>
  <spine><itemref idref="ch1"/></spine>
</package>"#;
    let epub = build_zip(&[
        ("META-INF/container.xml", CONTAINER.as_bytes()),
        ("OEBPS/content.opf", opf.as_bytes()),
    ]);
    let e = get_epub_content(&epub).unwrap_err();
    assert_eq!(e, EpubError::Archive(ArchiveError::PathTraversal));
}

#[test]
fn content_missing_spine_document() {
    let opf = r#"<package>
  <dc:title>T</dc:title>
  <manifest>
    <item id="ch1" href="absent.xhtml" media-type="application/xhtml+xml"/>
  </manifest>
  <spine><itemref idref="ch1"/></spine>
</package>"#;
    let epub = build_zip(&[
        ("META-INF/container.xml", CONTAINER.as_bytes()),
        ("OEBPS/content.opf", opf.as_bytes()),
    ]);
    let e = get_epub_content(&epub).unwrap_err();
    assert_eq!(e, EpubError::Archive(ArchiveError::EntryNotFound));
}

#[test]
fn content_missing_container_fails() {
    let epub = build_zip(&[("mimetype", b"application/epub+zip")]);
    let e = get_epub_content(&epub).unwrap_err();
    assert_eq!(e, EpubError::Archive(ArchiveError::MissingContainer));
}

#[test]
fn traversal_attack_entry_is_rejected() {
    let zipb = build_zip(&[("ok.txt", b"fine")]);
    let name: Vec<u8> = b"../../../etc/passwd".to_vec();
    let r = epub_extract::archive::archive_entry(&zipb, &name);
    assert_eq!(r.unwrap_err(), ArchiveError::PathTraversal);
}

#[test]
fn archive_entry_reads_exact_bytes() {
    let zipb = build_zip(&[("dir/data.bin", b"payload-123"), ("other", b"x")]);
    let name: Vec<u8> = b"dir/data.bin".to_vec();
    let d = epub_extract::archive::archive_entry(&zipb, &name).expect("entry present");
    assert_eq!(d, b"payload-123");
    let missing: Vec<u8> = b"nope.bin".to_vec();
    assert_eq!(
        epub_extract::archive::archive_entry(&zipb, &missing).unwrap_err(),
        ArchiveError::EntryNotFound
    );
}

#[test]
fn list_entries_names_in_order() {
    let zipb = build_zip(&[("a.txt", b"1"), ("b/c.txt", b"2")]);
    let names = epub_extract::archive::list_entries(&zipb).expect("valid zip");
    assert_eq!(names, vec![b"a.txt".to_vec(), b"b/c.txt".to_vec()]);
}

#[test]
fn resolve_path_normalizes_and_bounds() {
    let base: Vec<u8> = b"OEBPS".to_vec();
    let up: Vec<u8> = b"../images/x.png".to_vec();
    let r = epub_extract::paths::resolve_path(&base, &up).expect("stays inside");
    assert_eq!(r, b"images/x.png");

    let dotted: Vec<u8> = b"./sub//y.css".to_vec();
    let r2 = epub_extract::paths::resolve_path(&base, &dotted).expect("stays inside");
    assert_eq!(r2, b"OEBPS/sub/y.css");

    let escape: Vec<u8> = b"../../x".to_vec();
    assert_eq!(
        epub_extract::paths::resolve_path(&base, &escape).unwrap_err(),
        ArchiveError::PathTraversal
    );
}

#[test]
fn content_package_at_archive_root() {
    let container = r#"<container><rootfiles>
      <rootfile full-path="content.opf"/>
    </rootfiles></container>"#;
    let opf = r#"<package>
  <dc:title>Rooted</dc:title>
  <manifest>
    <item id="ch1" href="c.xhtml" media-type="application/xhtml+xml"/>
  </manifest>
  <spine><itemref idref="ch1"/></spine>
</package>"#;
    let epub = build_zip(&[
        ("META-INF/container.xml", container.as_bytes()),
        ("content.opf", opf.as_bytes()),
        ("c.xhtml", b"<html><p>root level</p></html>"),
    ]);
    let content = get_epub_content(&epub).expect("package at the root should work");
    assert!(content.contains("root level"));
}

#[test]
fn content_rewrites_src_after_other_attributes() {
    let ch = r#"<html><img width="5" alt="a pic" src="p.png"/></html>"#;
    let opf = r#"<package>
  <dc:title>T</dc:title>
  <manifest>
    <item id="ch1" href="c.xhtml" media-type="application/xhtml+xml"/>
    <item id="p" href="p.png" media-type="image/png"/>
  </manifest>
  <spine><itemref idref="ch1"/></spine>
</package>"#;
    let epub = build_zip(&[
        ("META-INF/container.xml", CONTAINER.as_bytes()),
        ("OEBPS/content.opf", opf.as_bytes()),
        ("OEBPS/c.xhtml", ch.as_bytes()),
        ("OEBPS/p.png", b"\x89PNG-fake-image-bytes"),
    ]);
    let content = get_epub_content(&epub).expect("should assemble");
    assert!(!content.contains("src=\"p.png\""));
    assert!(content.contains("alt=\"a pic\""), "other attributes stay");
    assert!(content.contains("data:image/png;base64,"));
}

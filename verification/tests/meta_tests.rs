//! Metadata extraction on in-memory archives: the happy path, the decoded
//! fields, the cover payload, and every structural failure.

use std::io::Write;

use epub_extract::errors::{ArchiveError, EpubError, MetadataError, XmlParseError};
use epub_extract::meta::parse_epub_meta;

fn build_zip(entries: &[(&str, &[u8])]) -> Vec<u8> {
    let mut w = zip::ZipWriter::new(std::io::Cursor::new(Vec::new()));
    let opts = zip::write::SimpleFileOptions::default();
    for (name, data) in entries {
        w.start_file(*name, opts).unwrap();
        w.write_all(data).unwrap();
    }
    w.finish().unwrap().into_inner()
}

const CONTAINER: &str = r#"<?xml version="1.0"?>
<container version="1.0" xmlns="urn:oasis:names:tc:opendocument:xmlns:container">
  <rootfiles>
    <rootfile full-path="OEBPS/content.opf" media-type="application/oebps-package+xml"/>
  </rootfiles>
</container>"#;

const OPF: &str = r#"<?xml version="1.0"?>
<package xmlns="http://www.idpf.org/2007/opf" version="3.0">
  <metadata xmlns:dc="http://purl.org/dc/elements/1.1/">
    <dc:title>Sample Book</dc:title>
    <dc:creator>Alice Writer</dc:creator>
    <dc:creator>Bob Editor</dc:creator>
    <dc:date>2020-01-01</dc:date>
    <dc:identifier>978-3-16-148410-0</dc:identifier>
    <meta name="cover" content="cov"/>
  </metadata>
  <manifest>
    <item id="ch1" href="chapter1.xhtml" media-type="application/xhtml+xml"/>
    <item id="ch2" href="chapter2.xhtml" media-type="application/xhtml+xml"/>
    <item id="img1" href="images/pic.png" media-type="image/png"/>
    <item id="cov" href="cover.jpg" media-type="image/jpeg"/>
  </manifest>
  <spine>
    <itemref idref="ch1"/>
    <itemref idref="ch2"/>
  </spine>
</package>"#;

const CH1: &str =
    r#"<html><body><p>Hello World</p><img src="images/pic.png"/></body></html>"#;
const CH2: &str = r#"<html><body><svg><image xlink:href="cover.jpg" width="5"/></svg></body></html>"#;
const PNG: &[u8] = b"\x89PNG-fake-image-bytes";
const JPG: &[u8] = b"JPEGDATA-cover-bytes";

fn sample_epub() -> Vec<u8> {
    build_zip(&[
        ("mimetype", b"application/epub+zip"),
        ("META-INF/container.xml", CONTAINER.as_bytes()),
        ("OEBPS/content.opf", OPF.as_bytes()),
        ("OEBPS/chapter1.xhtml", CH1.as_bytes()),
        ("OEBPS/chapter2.xhtml", CH2.as_bytes()),
        ("OEBPS/images/pic.png", PNG),
        ("OEBPS/cover.jpg", JPG),
    ])
}

#[test]
fn meta_happy_path_fields() {
    let epub = sample_epub();
    let m = parse_epub_meta(&epub, "books/sample.epub".to_string()).expect("should parse");
    assert_eq!(m.title, "Sample Book");
    assert_eq!(m.authors, vec!["Alice Writer".to_string(), "Bob Editor".to_string()]);
    assert_eq!(m.published_date.as_deref(), Some("2020-01-01"));
    assert_eq!(m.isbn.as_deref(), Some("978-3-16-148410-0"));
    assert_eq!(m.file_path, "books/sample.epub", "File path should match input");
    assert_eq!(m.checksum.len(), 64, "Checksum should be 64 hex characters");
    assert!(!m.title.is_empty(), "Title should not be empty");
    assert!(!m.authors.is_empty(), "Authors should not be empty");
}

#[test]
fn meta_checksum_matches_direct_computation() {
    let epub = sample_epub();
    let m = parse_epub_meta(&epub, "a.epub".to_string()).expect("should parse");
    let again = epub_extract::digest::compute_checksum(&epub);
    assert_eq!(m.checksum, again, "Checksum should be deterministic");
}

#[test]
fn meta_cover_payload() {
    let epub = sample_epub();
    let m = parse_epub_meta(&epub, "a.epub".to_string()).expect("should parse");
    let cover = m.cover_data.expect("cover should resolve");
    assert_eq!(cover.bytes, JPG);
    assert_eq!(cover.mime, "image/jpeg");
}

#[test]
fn meta_cover_from_properties() {
    let opf = r#"<package>
  <metadata xmlns:dc="http://purl.org/dc/elements/1.1/">
    <dc:title>No Meta Cover</dc:title>
  </metadata>
  <manifest>
    <item id="c" href="cover.jpg" media-type="image/jpeg" properties="cover-image"/>
  </manifest>
  <spine/>
</package>"#;
    let epub = build_zip(&[
        ("META-INF/container.xml", CONTAINER.as_bytes()),
        ("OEBPS/content.opf", opf.as_bytes()),
        ("OEBPS/cover.jpg", JPG),
    ]);
    let m = parse_epub_meta(&epub, "a.epub".to_string()).expect("should parse");
    let cover = m.cover_data.expect("cover should resolve from properties");
    assert_eq!(cover.bytes, JPG);
}

#[test]
fn meta_title_with_non_ascii_characters() {
    let opf = r#"<package>
  <metadata xmlns:dc="http://purl.org/dc/elements/1.1/">
    <dc:title>Caf\u{e9} et th\u{e9}</dc:title>
  </metadata>
  <manifest/>
  <spine/>
</package>"#
        .replace("\\u{e9}", "\u{e9}");
    let epub = build_zip(&[
        ("META-INF/container.xml", CONTAINER.as_bytes()),
        ("OEBPS/content.opf", opf.as_bytes()),
    ]);
    let m = parse_epub_meta(&epub, "c.epub".to_string()).expect("should parse");
    assert_eq!(m.title, "Caf\u{e9} et th\u{e9}");
    assert!(m.authors.is_empty());
    assert!(m.published_date.is_none());
    assert!(m.isbn.is_none());
    assert!(m.cover_data.is_none());
}

#[test]
fn meta_missing_container_is_archive_error() {
    let epub = build_zip(&[("mimetype", b"application/epub+zip")]);
    let e = parse_epub_meta(&epub, "x.epub".to_string()).unwrap_err();
    assert_eq!(e, EpubError::Archive(ArchiveError::MissingContainer));
}

#[test]
fn meta_invalid_archive() {
    let bytes: Vec<u8> = b"this is not a zip archive at all".to_vec();
    let e = parse_epub_meta(&bytes, "x.epub".to_string()).unwrap_err();
    assert_eq!(e, EpubError::Archive(ArchiveError::InvalidArchive));
}

#[test]
fn meta_container_without_rootfile_path() {
    let container = r#"<container><rootfiles><rootfile media-type="x"/></rootfiles></container>"#;
    let epub = build_zip(&[("META-INF/container.xml", container.as_bytes())]);
    let e = parse_epub_meta(&epub, "x.epub".to_string()).unwrap_err();
    assert_eq!(e, EpubError::Xml(XmlParseError::MissingElement));
}

#[test]
fn meta_package_document_absent() {
    let epub = build_zip(&[("META-INF/container.xml", CONTAINER.as_bytes())]);
    let e = parse_epub_meta(&epub, "x.epub".to_string()).unwrap_err();
    assert_eq!(e, EpubError::Archive(ArchiveError::EntryNotFound));
}

#[test]
fn meta_missing_title() {
    let opf = r#"<package>
  <metadata xmlns:dc="http://purl.org/dc/elements/1.1/">
    <dc:creator>Nobody</dc:creator>
  </metadata>
  <manifest/>
  <spine/>
</package>"#;
    let epub = build_zip(&[
        ("META-INF/container.xml", CONTAINER.as_bytes()),
        ("OEBPS/content.opf", opf.as_bytes()),
    ]);
    let e = parse_epub_meta(&epub, "x.epub".to_string()).unwrap_err();
    assert_eq!(e, EpubError::Metadata(MetadataError::MissingTitle));
}

#[test]
fn meta_whitespace_title_is_missing() {
    let opf = "<package><dc:title>   \n\t </dc:title></package>";
    let epub = build_zip(&[
        ("META-INF/container.xml", CONTAINER.as_bytes()),
        ("OEBPS/content.opf", opf.as_bytes()),
    ]);
    let e = parse_epub_meta(&epub, "x.epub".to_string()).unwrap_err();
    assert_eq!(e, EpubError::Metadata(MetadataError::MissingTitle));
}

#[test]
fn meta_dangling_spine_reference() {
    let opf = r#"<package>
  <dc:title>T</dc:title>
  <manifest>
    <item id="ch1" href="c.xhtml" media-type="application/xhtml+xml"/>
  </manifest>
  <spine>
    <itemref idref="nope"/>
  </spine>
</package>"#;
    let epub = build_zip(&[
        ("META-INF/container.xml", CONTAINER.as_bytes()),
        ("OEBPS/content.opf", opf.as_bytes()),
    ]);
    let e = parse_epub_meta(&epub, "x.epub".to_string()).unwrap_err();
    assert_eq!(e, EpubError::Metadata(MetadataError::DanglingSpineRef));
}

#[test]
fn meta_unterminated_item_tag_is_malformed() {
    let opf = "<package><dc:title>T</dc:title><item id=\"a\" href=\"b\"";
    let epub = build_zip(&[
        ("META-INF/container.xml", CONTAINER.as_bytes()),
        ("OEBPS/content.opf", opf.as_bytes()),
    ]);
    let e = parse_epub_meta(&epub, "x.epub".to_string()).unwrap_err();
    assert_eq!(e, EpubError::Xml(XmlParseError::Malformed));
}

#[test]
fn user_dto_records_hold_their_fields() {
    let u = epub_extract::dto::UserDTO {
        username: "reader".to_string(),
        email: Some("reader@example.com".to_string()),
        role: None,
        created_at: None,
    };
    let n = epub_extract::dto::NewUserDTO {
        username: "writer".to_string(),
        email: None,
        password: "example-password".to_string(),
        role: Some("admin".to_string()),
        created_at: None,
    };
    assert_eq!(u.username, "reader");
    assert_eq!(u.email.as_deref(), Some("reader@example.com"));
    assert_eq!(n.username, "writer");
    assert_eq!(n.role.as_deref(), Some("admin"));
}

//! The archive-extension filter, the exporter's computed names and JSON
//! document, and the font payload selection.

use std::io::Write;

use epub_extract::export::{
    cover_file_name, export_content_path, font_payloads, metadata_file_name, metadata_json,
};
use epub_extract::meta::BookMetadata;
use epub_extract::scan::{filter_epub_paths, is_epub_path};

fn build_zip(entries: &[(&str, &[u8])]) -> Vec<u8> {
    let mut w = zip::ZipWriter::new(std::io::Cursor::new(Vec::new()));
    let opts = zip::write::SimpleFileOptions::default();
    for (name, data) in entries {
        w.start_file(*name, opts).unwrap();
        w.write_all(data).unwrap();
    }
    w.finish().unwrap().into_inner()
}

#[test]
fn epub_suffix_detection() {
    assert!(is_epub_path("book.epub"));
    assert!(is_epub_path("dir/Another.EPUB"));
    assert!(is_epub_path("x.ePuB"));
    assert!(!is_epub_path("book.epub.bak"));
    assert!(!is_epub_path("bookepub"));
    assert!(!is_epub_path("epub"));
    assert!(!is_epub_path(""));
    assert!(!is_epub_path("b.mobi"));
}

#[test]
fn filter_keeps_exactly_matching_paths_in_order() {
    let paths = vec![
        "a/one.epub".to_string(),
        "b/two.txt".to_string(),
        "c/THREE.EPUB".to_string(),
        "d/four.epu".to_string(),
        "five.epub".to_string(),
    ];
    let kept = filter_epub_paths(&paths);
    assert_eq!(
        kept,
        vec![
            "a/one.epub".to_string(),
            "c/THREE.EPUB".to_string(),
            "five.epub".to_string()
        ]
    );
}

#[test]
fn filter_of_no_matches_is_empty() {
    let paths = vec!["a.txt".to_string(), "b.pdf".to_string()];
    assert!(filter_epub_paths(&paths).is_empty());
}

#[test]
fn content_export_path_shape() {
    let p = export_content_path("out/dir");
    assert_eq!(p, "out/dir/extracted_content.html");
}

#[test]
fn metadata_json_document() {
    let m = BookMetadata {
        title: "A \"quoted\" title".to_string(),
        authors: vec!["Ann".to_string(), "Ben".to_string()],
        published_date: Some("2021".to_string()),
        isbn: None,
        file_path: "x/y.epub".to_string(),
        checksum: "abc123".to_string(),
        cover_data: None,
    };
    let j = metadata_json(&m);
    assert_eq!(
        j,
        "{\"title\":\"A \\\"quoted\\\" title\",\"authors\":[\"Ann\",\"Ben\"],\
         \"published_date\":\"2021\",\"isbn\":null,\
         \"file_path\":\"x/y.epub\",\"checksum\":\"abc123\"}"
    );
}

#[test]
fn metadata_json_of_empty_authors() {
    let m = BookMetadata {
        title: "T".to_string(),
        authors: Vec::new(),
        published_date: None,
        isbn: None,
        file_path: "p".to_string(),
        checksum: "c".to_string(),
        cover_data: None,
    };
    let j = metadata_json(&m);
    assert_eq!(
        j,
        "{\"title\":\"T\",\"authors\":[],\"published_date\":null,\"isbn\":null,\
         \"file_path\":\"p\",\"checksum\":\"c\"}"
    );
}

#[test]
fn metadata_file_name_is_sanitized() {
    assert_eq!(metadata_file_name("My Book: Vol. 2!"), "My_Book__Vol__2_.json");
    assert_eq!(metadata_file_name("plain"), "plain.json");
}

#[test]
fn cover_file_name_extension_mapping() {
    assert_eq!(cover_file_name("T", "image/jpeg"), "T_cover.jpg");
    assert_eq!(cover_file_name("T", "image/png"), "T_cover.png");
    assert_eq!(cover_file_name("T", "image/gif"), "T_cover.gif");
    assert_eq!(cover_file_name("T", "image/svg+xml"), "T_cover.svg");
    assert_eq!(cover_file_name("T", "application/pdf"), "T_cover.img");
}

#[test]
fn font_payloads_select_manifest_fonts() {
    let opf = r#"<package>
  <dc:title>T</dc:title>
  <manifest>
    <item id="f1" href="fonts/Serif.otf" media-type="application/vnd.ms-opentype"/>
    <item id="f2" href="fonts/Mono.woff" media-type="application/font-woff"/>
    <item id="c1" href="style.css" media-type="text/css"/>
    <item id="f3" href="gone.ttf" media-type="font/ttf"/>
  </manifest>
  <spine/>
</package>"#;
    let zipb = build_zip(&[
        ("OEBPS/content.opf", opf.as_bytes()),
        ("OEBPS/fonts/Serif.otf", b"OTTO-serif-bytes"),
        ("OEBPS/fonts/Mono.woff", b"wOFF-mono-bytes"),
        ("OEBPS/style.css", b"body{}"),
    ]);
    let opf_bytes: Vec<u8> = opf.as_bytes().to_vec();
    let pkg = epub_extract::opf::parse_package(&opf_bytes, b"OEBPS".to_vec()).expect("parses");
    let fonts = font_payloads(&zipb, &pkg);
    assert_eq!(fonts.len(), 2, "the absent font file is skipped, the style sheet ignored");
    assert_eq!(fonts[0].name, b"Serif.otf");
    assert_eq!(fonts[0].bytes, b"OTTO-serif-bytes");
    assert_eq!(fonts[1].name, b"Mono.woff");
    assert_eq!(fonts[1].bytes, b"wOFF-mono-bytes");
}

#[test]
fn font_payloads_of_invalid_archive_are_empty() {
    let opf = r#"<package>
  <dc:title>T</dc:title>
  <manifest>
    <item id="f1" href="a.otf" media-type="font/otf"/>
  </manifest>
  <spine/>
</package>"#;
    let opf_bytes: Vec<u8> = opf.as_bytes().to_vec();
    let pkg = epub_extract::opf::parse_package(&opf_bytes, b"OEBPS".to_vec()).expect("parses");
    let not_a_zip: Vec<u8> = b"garbage".to_vec();
    assert!(font_payloads(&not_a_zip, &pkg).is_empty());
}

#[test]
fn metadata_json_escapes_control_characters() {
    let m = BookMetadata {
        title: "line\nbreak\tand \\ slash".to_string(),
        authors: Vec::new(),
        published_date: None,
        isbn: None,
        file_path: "p".to_string(),
        checksum: "c".to_string(),
        cover_data: None,
    };
    let j = metadata_json(&m);
    assert_eq!(
        j,
        "{\"title\":\"line\\nbreak\\tand \\\\ slash\",\"authors\":[],\
         \"published_date\":null,\"isbn\":null,\"file_path\":\"p\",\"checksum\":\"c\"}"
    );
}

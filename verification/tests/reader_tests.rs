use std::io::Write;

use epub_reader::book::{ManifestEntry, TocEntry};
use epub_reader::checksum::checksum_of_archive;
use epub_reader::library::LibraryTable;
use epub_reader::normalize::{build_path_index, lookup_label, normalize};
use epub_reader::container::check_container_root;
use epub_reader::reader::{
    author_or_unknown, is_epub_file, title_or_stem, ImportError, ImportOutcome, QueryError, Reader,
};
use epub_reader::book::{lookup_path, lookup_resource};

fn build_zip(files: &[(&str, &str)]) -> Vec<u8> {
    let mut w = zip::ZipWriter::new(std::io::Cursor::new(Vec::new()));
    let opts = zip::write::SimpleFileOptions::default()
        .compression_method(zip::CompressionMethod::Stored);
    for (name, data) in files {
        w.start_file(*name, opts).unwrap();
        w.write_all(data.as_bytes()).unwrap();
    }
    w.finish().unwrap().into_inner()
}

const CONTAINER_XML: &str = r#"<?xml version="1.0" encoding="UTF-8"?>
<container version="1.0" xmlns="urn:oasis:names:tc:opendocument:xmlns:container">
  <rootfiles>
    <rootfile full-path="OEBPS/content.opf" media-type="application/oebps-package+xml"/>
  </rootfiles>
</container>"#;

const NCX: &str = r#"<?xml version="1.0" encoding="UTF-8"?>
<ncx xmlns="http://www.daisy.org/z3986/2005/ncx/" version="2005-1">
  <docTitle><text>My Book</text></docTitle>
  <navMap>
    <navPoint id="np1" playOrder="1">
      <navLabel><text>Chapter One</text></navLabel>
      <content src="ch1.xhtml"/>
    </navPoint>
    <navPoint id="np2" playOrder="2">
      <navLabel><text>Chapter Two</text></navLabel>
      <content src="ch2.xhtml"/>
    </navPoint>
  </navMap>
</ncx>"#;

const OPF_TWO_CHAPTERS: &str = r#"<?xml version="1.0" encoding="UTF-8"?>
<package xmlns="http://www.idpf.org/2007/opf" xmlns:dc="http://purl.org/dc/elements/1.1/" version="2.0" unique-identifier="bid">
  <metadata>
    <dc:title>My Book</dc:title>
    <dc:creator>Jane Roe</dc:creator>
    <dc:identifier id="bid">urn:x:1</dc:identifier>
  </metadata>
  <manifest>
    <item id="ch1" href="ch1.xhtml" media-type="application/xhtml+xml"/>
    <item id="ch2" href="ch2.xhtml" media-type="application/xhtml+xml"/>
    <item id="ncx" href="toc.ncx" media-type="application/x-dtbncx+xml"/>
  </manifest>
  <spine toc="ncx">
    <itemref idref="ch1"/>
    <itemref idref="ch2"/>
  </spine>
</package>"#;

const OPF_EMPTY_SPINE: &str = r#"<?xml version="1.0" encoding="UTF-8"?>
<package xmlns="http://www.idpf.org/2007/opf" xmlns:dc="http://purl.org/dc/elements/1.1/" version="2.0" unique-identifier="bid">
  <metadata>
    <dc:identifier id="bid">urn:x:2</dc:identifier>
  </metadata>
  <manifest>
    <item id="ncx" href="toc.ncx" media-type="application/x-dtbncx+xml"/>
  </manifest>
  <spine toc="ncx">
  </spine>
</package>"#;

fn two_chapter_epub() -> Vec<u8> {
    build_zip(&[
        ("META-INF/container.xml", CONTAINER_XML),
        ("OEBPS/content.opf", OPF_TWO_CHAPTERS),
        ("OEBPS/toc.ncx", NCX),
        ("OEBPS/ch1.xhtml", "<html><body><p>one</p></body></html>"),
        ("OEBPS/ch2.xhtml", "<html><body><p>two</p></body></html>"),
    ])
}

fn empty_spine_epub() -> Vec<u8> {
    build_zip(&[
        ("META-INF/container.xml", CONTAINER_XML),
        ("OEBPS/content.opf", OPF_EMPTY_SPINE),
        ("OEBPS/toc.ncx", NCX),
    ])
}

fn import(r: &mut Reader, name: &str, stem: &str, bytes: Vec<u8>) -> ImportOutcome {
    r.import_archive(
        &name.to_string(),
        &stem.to_string(),
        bytes,
        &format!("/library/{}/{}", stem, name),
        &format!("/library/{}/cover.jpg", stem),
    )
    .unwrap()
}

#[test]
fn import_reports_matching_counts() {
    let mut r = Reader::new();
    let out = import(&mut r, "book.epub", "book", two_chapter_epub());
    let summary = match out {
        ImportOutcome::Created(s, cover) => {
            assert!(cover.is_none());
            s
        }
        _ => panic!("expected a fresh import"),
    };
    assert_eq!(summary.total_pages, 2);
    assert_eq!(summary.current_page, 1);
    assert_eq!(summary.title, "My Book");
    assert_eq!(summary.author, "Jane Roe");
    assert_eq!(summary.cover_url, "");
    let toc = r.get_toc().unwrap();
    assert_eq!(toc.len() as i64, summary.total_pages);
    assert_eq!(
        toc,
        vec![
            ("Chapter One".to_string(), "ch1".to_string()),
            ("Chapter Two".to_string(), "ch2".to_string()),
        ]
    );
}

#[test]
fn reimport_reuses_the_library_row() {
    let mut r = Reader::new();
    let bytes = two_chapter_epub();
    let first = match import(&mut r, "book.epub", "book", bytes.clone()) {
        ImportOutcome::Created(s, _) => s,
        _ => panic!("expected a fresh import"),
    };
    r.set_last_page(first.checksum, 2);
    let second = match import(&mut r, "book.epub", "book", bytes) {
        ImportOutcome::Reopened(s) => s,
        _ => panic!("expected a re-open"),
    };
    assert_eq!(second.checksum, first.checksum);
    assert_eq!(second.total_pages, first.total_pages);
    assert_eq!(second.current_page, 2);
    assert_eq!(r.library_entries().len(), 1);
}

#[test]
fn pages_in_range_are_served_after_import() {
    let mut r = Reader::new();
    assert_eq!(r.get_page(1).unwrap_err(), QueryError::NotLoaded);
    import(&mut r, "book.epub", "book", two_chapter_epub());
    let p1 = r.get_page(1).unwrap();
    assert_eq!(p1.title, "Chapter One");
    assert_eq!(p1.mime, "application/xhtml+xml");
    assert_eq!(p1.content, "<html><body><p>one</p></body></html>");
    let p2 = r.get_page(2).unwrap();
    assert_eq!(p2.title, "Chapter Two");
    assert_eq!(r.get_page(0).unwrap_err(), QueryError::PageOutOfBounds);
    assert_eq!(r.get_page(3).unwrap_err(), QueryError::PageOutOfBounds);
}

#[test]
fn reading_a_page_stores_the_position() {
    let mut r = Reader::new();
    let out = import(&mut r, "book.epub", "book", two_chapter_epub());
    let crc = match out {
        ImportOutcome::Created(s, _) => s.checksum,
        _ => panic!("expected a fresh import"),
    };
    r.get_page(2).unwrap();
    assert_eq!(r.get_last_page(crc), 2);
}

#[test]
fn set_then_get_last_page_is_stable() {
    let mut r = Reader::new();
    let out = import(&mut r, "book.epub", "book", two_chapter_epub());
    let crc = match out {
        ImportOutcome::Created(s, _) => s.checksum,
        _ => panic!("expected a fresh import"),
    };
    r.set_last_page(crc, 5);
    assert_eq!(r.get_last_page(crc), 5);
    // Opening a different book does not disturb the stored position.
    import(&mut r, "empty.epub", "empty", empty_spine_epub());
    assert_eq!(r.get_last_page(crc), 5);
}

#[test]
fn identifier_for_path_round_trips() {
    let mut r = Reader::new();
    import(&mut r, "book.epub", "book", two_chapter_epub());
    assert_eq!(
        r.identifier_for_path(&"OEBPS/ch1.xhtml".to_string()).unwrap(),
        "ch1"
    );
    assert_eq!(
        r.identifier_for_path(&"OEBPS/ch2.xhtml".to_string()).unwrap(),
        "ch2"
    );
    assert_eq!(
        r.identifier_for_path(&"OEBPS/nowhere.xhtml".to_string()).unwrap_err(),
        QueryError::UnknownPath
    );
}

#[test]
fn page_for_identifier_with_fallback() {
    let mut r = Reader::new();
    import(&mut r, "book.epub", "book", two_chapter_epub());
    assert_eq!(r.page_for_identifier(&"ch1".to_string()).unwrap(), 1);
    assert_eq!(r.page_for_identifier(&"ch2".to_string()).unwrap(), 2);
    assert_eq!(r.page_for_identifier(&"missing".to_string()).unwrap(), 1);
}

#[test]
fn wrong_extension_is_rejected_without_state_change() {
    let mut r = Reader::new();
    let err = r
        .import_archive(
            &"book.txt".to_string(),
            &"book".to_string(),
            two_chapter_epub(),
            &"/library/book/book.txt".to_string(),
            &"/library/book/cover.jpg".to_string(),
        )
        .unwrap_err();
    assert!(matches!(err, ImportError::InvalidExtension));
    assert_eq!(r.library_entries().len(), 0);
    assert_eq!(r.get_page(1).unwrap_err(), QueryError::NotLoaded);
}

#[test]
fn unreadable_container_is_rejected_without_state_change() {
    let mut r = Reader::new();
    let err = r
        .import_archive(
            &"junk.epub".to_string(),
            &"junk".to_string(),
            vec![1, 2, 3, 4],
            &"/library/junk/junk.epub".to_string(),
            &"/library/junk/cover.jpg".to_string(),
        )
        .unwrap_err();
    assert!(matches!(err, ImportError::ContainerUnreadable(_)));
    assert_eq!(r.library_entries().len(), 0);
    assert_eq!(r.get_page(1).unwrap_err(), QueryError::NotLoaded);
}

#[test]
fn empty_spine_has_no_pages() {
    let mut r = Reader::new();
    let out = import(&mut r, "empty.epub", "empty", empty_spine_epub());
    let summary = match out {
        ImportOutcome::Created(s, _) => s,
        _ => panic!("expected a fresh import"),
    };
    assert_eq!(summary.total_pages, 0);
    assert_eq!(r.get_page(1).unwrap_err(), QueryError::PageOutOfBounds);
    assert_eq!(r.get_toc().unwrap().len(), 0);
}

#[test]
fn missing_metadata_falls_back_to_stem_and_sentinel() {
    let mut r = Reader::new();
    let out = import(&mut r, "empty.epub", "empty", empty_spine_epub());
    let summary = match out {
        ImportOutcome::Created(s, _) => s,
        _ => panic!("expected a fresh import"),
    };
    assert_eq!(summary.title, "empty");
    assert_eq!(summary.author, "<unknown>");
}

#[test]
fn checksum_matches_the_reference_value() {
    // CRC-32 (IEEE) of "123456789" is 0xCBF43926.
    let bytes: Vec<u8> = "123456789".as_bytes().to_vec();
    assert_eq!(checksum_of_archive(&bytes), 0xCBF43926u32 as i64);
    assert_eq!(checksum_of_archive(&bytes), checksum_of_archive(&bytes));
    assert_ne!(checksum_of_archive(&Vec::new()), checksum_of_archive(&bytes));
}

#[test]
fn extension_check_on_names() {
    assert!(is_epub_file(&"a.epub".to_string()));
    assert!(is_epub_file(&"war.and.peace.epub".to_string()));
    assert!(!is_epub_file(&".epub".to_string()));
    assert!(!is_epub_file(&"a.epub.txt".to_string()));
    assert!(!is_epub_file(&"book.EPUB".to_string()));
    assert!(!is_epub_file(&"book".to_string()));
}

fn manifest_entry(id: &str, path: &str, mime: &str) -> ManifestEntry {
    ManifestEntry { id: id.to_string(), path: path.to_string(), mime: mime.to_string() }
}

#[test]
fn duplicate_manifest_paths_resolve_to_the_last_entry() {
    let m = vec![
        manifest_entry("a", "p.xhtml", "text/a"),
        manifest_entry("b", "p.xhtml", "text/b"),
        manifest_entry("c", "q.xhtml", "text/c"),
    ];
    let ps = build_path_index(&m);
    assert_eq!(lookup_path(&ps, &"p.xhtml".to_string()).unwrap().as_str(), "b");
    assert_eq!(lookup_path(&ps, &"q.xhtml".to_string()).unwrap().as_str(), "c");
    assert!(lookup_path(&ps, &"r.xhtml".to_string()).is_none());
}

#[test]
fn normalize_builds_titles_and_placeholders() {
    let spine = vec!["a".to_string(), "b".to_string()];
    let contents = vec![Some("text a".to_string()), None];
    let m = vec![
        manifest_entry("a", "a.xhtml", "text/html"),
        manifest_entry("b", "b.xhtml", "text/html"),
        manifest_entry("extra", "x.png", "image/png"),
    ];
    let toc = vec![TocEntry { label: "Alpha".to_string(), path: "a.xhtml".to_string() }];
    let book = normalize(&spine, &contents, &m, &toc, 9);
    assert_eq!(book.checksum, 9);
    // A labelled page carries the TOC label, an unlabelled one its identifier.
    let a = lookup_resource(&book.resources, &"a".to_string()).unwrap();
    assert_eq!(a.title, "Alpha");
    assert_eq!(a.mime, "text/html");
    assert_eq!(a.content, "text a");
    // Failed extraction degrades to an empty placeholder, not a failure.
    let b = lookup_resource(&book.resources, &"b".to_string()).unwrap();
    assert_eq!(b.title, "b");
    assert_eq!(b.content, "");
    // A manifest resource outside the spine is indexed with empty content.
    let x = lookup_resource(&book.resources, &"extra".to_string()).unwrap();
    assert_eq!(x.mime, "image/png");
    assert_eq!(x.content, "");
    assert!(lookup_resource(&book.resources, &"nope".to_string()).is_none());
    // The TOC label lookup resolves through the path index.
    assert_eq!(
        lookup_label(&toc, &book.path_index, &"a".to_string()).unwrap(),
        "Alpha"
    );
    assert!(lookup_label(&toc, &book.path_index, &"b".to_string()).is_none());
}

#[test]
fn library_table_defaults_to_page_one() {
    let mut t = LibraryTable::new();
    assert_eq!(t.current_page_or_default(42), 1);
    // Progress for an unknown checksum is not tracked.
    t.set_current_page(42, 9);
    assert_eq!(t.current_page_or_default(42), 1);
}

#[test]
fn rootless_package_path_is_rejected_not_a_crash() {
    // A container declaring a parentless package path would crash the
    // underlying parser; the importer must answer with the ordinary
    // unreadable-container error and change nothing.
    for rootfile in ["", "/", "///"] {
        let container = format!(
            r#"<?xml version="1.0" encoding="UTF-8"?>
<container version="1.0" xmlns="urn:oasis:names:tc:opendocument:xmlns:container">
  <rootfiles>
    <rootfile full-path="{}" media-type="application/oebps-package+xml"/>
  </rootfiles>
</container>"#,
            rootfile
        );
        let bytes = build_zip(&[("META-INF/container.xml", container.as_str())]);
        let mut r = Reader::new();
        let err = r
            .import_archive(
                &"evil.epub".to_string(),
                &"evil".to_string(),
                bytes,
                &"/library/evil/evil.epub".to_string(),
                &"/library/evil/cover.jpg".to_string(),
            )
            .unwrap_err();
        assert!(matches!(err, ImportError::ContainerUnreadable(_)));
        assert_eq!(r.library_entries().len(), 0);
        assert_eq!(r.get_page(1).unwrap_err(), QueryError::NotLoaded);
    }
}

#[test]
fn container_screen_accepts_real_and_rejects_rootless() {
    assert!(check_container_root(&CONTAINER_XML.as_bytes().to_vec()));
    let ok = br#"<rootfile full-path="OEBPS/content.opf"/>"#.to_vec();
    assert!(check_container_root(&ok));
    let empty = br#"<rootfile full-path=""/>"#.to_vec();
    assert!(!check_container_root(&empty));
    let root = br#"<rootfile full-path="/"/>"#.to_vec();
    assert!(!check_container_root(&root));
    let slashes = br#"<rootfile full-path="//"/>"#.to_vec();
    assert!(!check_container_root(&slashes));
    // Entities could decode to anything; the screen rejects them.
    let entity = br#"<rootfile full-path="&#47;"/>"#.to_vec();
    assert!(!check_container_root(&entity));
    // Unusual spellings the screen cannot vouch for are rejected too.
    let spaced = br#"<rootfile full-path = "OEBPS/content.opf"/>"#.to_vec();
    assert!(!check_container_root(&spaced));
    let utf16 = vec![0xff, 0xfe, 0x00, 0x41];
    assert!(!check_container_root(&utf16));
}

#[test]
fn metadata_fallbacks_are_exact() {
    assert_eq!(title_or_stem(Some("My Book".to_string()), &"stem".to_string()), "My Book");
    assert_eq!(title_or_stem(None, &"stem".to_string()), "stem");
    assert_eq!(author_or_unknown(Some("Jane Roe".to_string())), "Jane Roe");
    assert_eq!(author_or_unknown(None), "<unknown>");
}

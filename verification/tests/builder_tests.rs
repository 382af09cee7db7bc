use epub_builder::epub::EpubDate;
use epub_builder::epub::format_urn;
use epub_builder::epub::to_id;
use epub_builder::EpubBuilder;
use epub_builder::EpubContent;
use epub_builder::EpubVersion;
use epub_builder::Error;
use epub_builder::PageDirection;
use epub_builder::ReferenceType;
use epub_builder::Zip;

/// An in-memory archive writer: it records every written file, and its
/// generated "archive" is a plain dump of them, which the tests can search.
struct MemZip {
    files: Vec<(String, Vec<u8>)>,
}

impl MemZip {
    fn new() -> MemZip {
        MemZip { files: Vec::new() }
    }
}

impl Zip for MemZip {
    fn write_file(&mut self, path: &str, content: &[u8]) -> Result<(), Error> {
        self.files.push((path.to_string(), content.to_vec()));
        Ok(())
    }

    fn generate(self) -> Result<Vec<u8>, Error> {
        let mut out = Vec::new();
        for (path, content) in self.files {
            out.extend_from_slice(b"== ");
            out.extend_from_slice(path.as_bytes());
            out.extend_from_slice(b" ==\n");
            out.extend_from_slice(&content);
            out.extend_from_slice(b"\n");
        }
        Ok(out)
    }
}

fn generate_to_string(builder: EpubBuilder<MemZip>) -> String {
    String::from_utf8(builder.generate().unwrap()).unwrap()
}

#[test]
fn builder_writes_container_documents() {
    let builder = EpubBuilder::new(MemZip::new()).unwrap();
    let dump = generate_to_string(builder);
    assert!(dump.contains("== META-INF/container.xml =="));
    assert!(dump.contains("full-path=\"OEBPS/content.opf\""));
    assert!(dump.contains("== META-INF/com.apple.ibooks.display-options.xml =="));
    assert!(dump.contains("== OEBPS/content.opf =="));
    assert!(dump.contains("== OEBPS/toc.ncx =="));
    assert!(dump.contains("== OEBPS/nav.xhtml =="));
    // a stylesheet is supplied when none was set
    assert!(dump.contains("== OEBPS/stylesheet.css =="));
}

#[test]
fn builder_metadata_in_opf() {
    let mut builder = EpubBuilder::new(MemZip::new()).unwrap();
    builder.metadata("title", "Dummy & Book").unwrap();
    builder.metadata("author", "Joan Doe").unwrap();
    builder.metadata("lang", "fr").unwrap();
    builder.set_uuid(0x0123_4567_89ab_cdef_0123_4567_89ab_cdef_u128);
    builder.set_modified_date(EpubDate {
        year: 2023,
        month: 1,
        day: 5,
        hour: 9,
        minute: 30,
        second: 7,
    });
    let dump = generate_to_string(builder);
    assert!(dump.contains("<dc:title>Dummy &amp; Book</dc:title>"));
    assert!(dump.contains("<dc:creator id=\"author_0\">Joan Doe</dc:creator>"));
    assert!(dump.contains("<dc:language>fr</dc:language>"));
    assert!(dump.contains(
        "<dc:identifier id=\"book_id\">urn:uuid:01234567-89ab-cdef-0123-456789abcdef</dc:identifier>"
    ));
    assert!(dump.contains("<meta property=\"dcterms:modified\">2023-01-05T09:30:07Z</meta>"));
}

#[test]
fn builder_rejects_unknown_metadata_key() {
    let mut builder = EpubBuilder::new(MemZip::new()).unwrap();
    match builder.metadata("flavour", "vanilla") {
        Err(Error::InvalidMetadataError(k)) => assert_eq!(k, "flavour"),
        _ => panic!("an unknown key must be rejected"),
    }
}

#[test]
fn builder_direction_metadata() {
    let mut builder = EpubBuilder::new(MemZip::new()).unwrap();
    builder.metadata("direction", "RTL").unwrap();
    let dump = generate_to_string(builder);
    assert!(dump.contains("page-progression-direction=\"rtl\""));
}

#[test]
fn page_direction_round_trip() {
    assert!(matches!(PageDirection::from_str("LtR"), Ok(PageDirection::Ltr)));
    assert!(matches!(PageDirection::from_str("rtl"), Ok(PageDirection::Rtl)));
    match PageDirection::from_str("Sideways") {
        Err(Error::PageDirectionError(m)) => assert_eq!(m, "sideways"),
        _ => panic!("a direction that is neither ltr nor rtl must be rejected"),
    }
    assert_eq!(PageDirection::Ltr.to_string(), "ltr");
    assert_eq!(PageDirection::Rtl.to_string(), "rtl");
}

#[test]
fn builder_content_toc_and_spine() {
    let mut builder = EpubBuilder::new(MemZip::new()).unwrap();
    builder.epub_version(EpubVersion::V30);
    builder
        .add_content(
            EpubContent::new("chapter_1.xhtml", b"<p>text</p>".to_vec())
                .title("Chapter 1")
                .reftype(ReferenceType::Text),
        )
        .unwrap();
    builder
        .add_content(EpubContent::new("notes.xhtml", b"<p>notes</p>".to_vec()))
        .unwrap();
    let dump = generate_to_string(builder);
    assert!(dump.contains("== OEBPS/chapter_1.xhtml =="));
    // both files are manifest items and spine itemrefs
    assert!(dump.contains("href=\"chapter_1.xhtml\"/>"));
    assert!(dump.contains("<itemref idref=\"id_chapter_1.xhtml\"/>"));
    assert!(dump.contains("<itemref idref=\"id_notes.xhtml\"/>"));
    // the titled chapter is in the guide and in the navigation points
    assert!(dump.contains("<reference type=\"text\" title=\"Chapter 1\" href=\"chapter_1.xhtml\"/>"));
    assert!(dump.contains("<text>Chapter 1</text>"));
    assert!(dump.contains("<li><a epub:type=\"bodymatter\" href=\"chapter_1.xhtml\">Chapter 1</a></li>"));
    // the untitled one is not in the toc
    assert!(!dump.contains("<content src=\"notes.xhtml\"/>"));
}

#[test]
fn builder_cover_image_marked() {
    let mut builder = EpubBuilder::new(MemZip::new()).unwrap();
    builder.epub_version(EpubVersion::V30);
    builder
        .add_cover_image("cover.png", b"PNG".as_ref(), "image/png")
        .unwrap();
    let dump = generate_to_string(builder);
    assert!(dump.contains("<meta name=\"cover\" content=\"cover-image\"/>"));
    assert!(dump.contains("properties=\"cover-image\" id=\"cover-image\" href=\"cover.png\"/>"));
}

#[test]
fn builder_inline_toc_page() {
    let mut builder = EpubBuilder::new(MemZip::new()).unwrap();
    builder
        .add_content(EpubContent::new("c1.xhtml", b"x".to_vec()).title("One"))
        .unwrap();
    builder.inline_toc();
    let dump = generate_to_string(builder);
    assert!(dump.contains("== OEBPS/toc.xhtml =="));
    assert!(dump.contains("<content src=\"toc.xhtml\"/>"));
}

#[test]
fn builder_optional_metadata_lines() {
    let mut builder = EpubBuilder::new(MemZip::new()).unwrap();
    builder.metadata("description", "A tale of < and >").unwrap();
    builder.metadata("subject", "Testing").unwrap();
    builder.metadata("license", "CC-BY").unwrap();
    let dump = generate_to_string(builder);
    assert!(dump.contains("<dc:description>A tale of &lt; and &gt;</dc:description>"));
    assert!(dump.contains("<dc:subject>Testing</dc:subject>"));
    assert!(dump.contains("<dc:rights>CC-BY</dc:rights>"));
}

#[test]
fn builder_empty_author_clears_the_list() {
    let mut builder = EpubBuilder::new(MemZip::new()).unwrap();
    builder.metadata("author", "First").unwrap();
    builder.metadata("author", "Second").unwrap();
    builder.metadata("author", "").unwrap();
    builder.metadata("author", "Only").unwrap();
    let dump = generate_to_string(builder);
    assert!(!dump.contains("First"));
    assert!(!dump.contains("Second"));
    assert!(dump.contains("<dc:creator id=\"author_0\">Only</dc:creator>"));
}

#[test]
fn builder_escape_html_off_keeps_markup() {
    let mut builder = EpubBuilder::new(MemZip::new()).unwrap();
    builder.metadata("title", "A <em>styled</em> title").unwrap();
    builder.escape_html(false);
    let dump = generate_to_string(builder);
    assert!(dump.contains("<dc:title>A <em>styled</em> title</dc:title>"));
}

#[test]
fn epub_date_formatting() {
    let date = EpubDate { year: 7, month: 12, day: 31, hour: 0, minute: 4, second: 59 };
    assert_eq!(date.format_iso(), "0007-12-31T00:04:59Z");
}

#[test]
fn urn_formatting() {
    assert_eq!(format_urn(0), "urn:uuid:00000000-0000-0000-0000-000000000000");
    assert_eq!(
        format_urn(u128::MAX),
        "urn:uuid:ffffffff-ffff-ffff-ffff-ffffffffffff"
    );
}

#[test]
fn id_sanitizing() {
    assert_eq!(to_id("chapter_1.xhtml"), "id_chapter_1.xhtml");
    assert_eq!(to_id("a b\"c"), "id_a_b_c");
    assert_eq!(to_id(""), "id_");
}

#[test]
fn epub_nav_title_trimmed() {
    let mut toc = epub_builder::Toc::new();
    toc.add(epub_builder::TocElement::new("#1", "  padded title  "));
    let actual = toc.render_epub(true);
    assert!(actual.contains("<text>padded title</text>"));
}

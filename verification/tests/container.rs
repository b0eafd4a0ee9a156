use epub_loader::{
    get_chapter_count, get_cover, load_epub_data, open_epub, open_epub_bytes, read_chapter,
    EpubBook, EpubError,
};
use rbook::ebook::manifest::ManifestEntry;
use rbook::ebook::Ebook;
use rbook::epub::Epub;
use std::io::Cursor;

fn crc32(data: &[u8]) -> u32 {
    let mut crc: u32 = 0xffff_ffff;
    for byte in data {
        crc ^= *byte as u32;
        for _ in 0..8 {
            crc = if crc & 1 == 1 { (crc >> 1) ^ 0xedb8_8320 } else { crc >> 1 };
        }
    }
    !crc
}

fn put16(out: &mut Vec<u8>, value: u16) {
    out.extend_from_slice(&value.to_le_bytes());
}

fn put32(out: &mut Vec<u8>, value: u32) {
    out.extend_from_slice(&value.to_le_bytes());
}

/// A zip archive that stores `files` without compression.
fn zip_of(files: &[(&str, &[u8])]) -> Vec<u8> {
    let mut out = Vec::new();
    let mut directory = Vec::new();
    for (name, data) in files {
        let offset = out.len() as u32;
        let crc = crc32(data);
        put32(&mut out, 0x0403_4b50);
        put16(&mut out, 20);
        put16(&mut out, 0);
        put16(&mut out, 0);
        put16(&mut out, 0);
        put16(&mut out, 0x21);
        put32(&mut out, crc);
        put32(&mut out, data.len() as u32);
        put32(&mut out, data.len() as u32);
        put16(&mut out, name.len() as u16);
        put16(&mut out, 0);
        out.extend_from_slice(name.as_bytes());
        out.extend_from_slice(data);

        put32(&mut directory, 0x0201_4b50);
        put16(&mut directory, 20);
        put16(&mut directory, 20);
        put16(&mut directory, 0);
        put16(&mut directory, 0);
        put16(&mut directory, 0);
        put16(&mut directory, 0x21);
        put32(&mut directory, crc);
        put32(&mut directory, data.len() as u32);
        put32(&mut directory, data.len() as u32);
        put16(&mut directory, name.len() as u16);
        put16(&mut directory, 0);
        put16(&mut directory, 0);
        put16(&mut directory, 0);
        put16(&mut directory, 0);
        put32(&mut directory, 0);
        put32(&mut directory, offset);
        directory.extend_from_slice(name.as_bytes());
    }
    let start = out.len() as u32;
    out.extend_from_slice(&directory);
    put32(&mut out, 0x0605_4b50);
    put16(&mut out, 0);
    put16(&mut out, 0);
    put16(&mut out, files.len() as u16);
    put16(&mut out, files.len() as u16);
    put32(&mut out, directory.len() as u32);
    put32(&mut out, start);
    put16(&mut out, 0);
    out
}

const CONTAINER: &str = "<?xml version=\"1.0\"?>\n<container version=\"1.0\" xmlns=\"urn:oasis:names:tc:opendocument:xmlns:container\">\n<rootfiles>\n<rootfile full-path=\"OEBPS/content.opf\" media-type=\"application/oebps-package+xml\"/>\n</rootfiles>\n</container>\n";

fn package_document(metadata: &str, manifest: &str, spine: &str) -> String {
    format!(
        "<?xml version=\"1.0\" encoding=\"UTF-8\"?>\n<package xmlns=\"http://www.idpf.org/2007/opf\" version=\"3.0\" unique-identifier=\"uid\">\n<metadata xmlns:dc=\"http://purl.org/dc/elements/1.1/\">\n{}</metadata>\n<manifest>\n{}</manifest>\n<spine>\n{}</spine>\n</package>\n",
        metadata, manifest, spine
    )
}

fn page(body: &str) -> String {
    format!(
        "<?xml version=\"1.0\" encoding=\"UTF-8\"?>\n<html xmlns=\"http://www.w3.org/1999/xhtml\"><head><title>t</title></head><body><p>{}</p></body></html>\n",
        body
    )
}

fn navigation(list: &str) -> String {
    format!(
        "<?xml version=\"1.0\" encoding=\"UTF-8\"?>\n<html xmlns=\"http://www.w3.org/1999/xhtml\" xmlns:epub=\"http://www.idpf.org/2007/ops\"><head><title>nav</title></head><body>\n<nav epub:type=\"toc\">\n<ol>\n{}</ol>\n</nav>\n</body></html>\n",
        list
    )
}

const FULL_METADATA: &str = "<dc:identifier id=\"uid\">urn:uuid:1234</dc:identifier>\n<dc:title>Sample Book</dc:title>\n<dc:creator>First Author</dc:creator>\n<dc:creator>Second Author</dc:creator>\n<dc:language>en</dc:language>\n<dc:publisher>First Press</dc:publisher>\n<dc:publisher>Second Press</dc:publisher>\n<dc:description>A short sample.</dc:description>\n";

const THREE_ITEMS: &str = "<item id=\"nav\" href=\"nav.xhtml\" media-type=\"application/xhtml+xml\" properties=\"nav\"/>\n<item id=\"c1\" href=\"c1.xhtml\" media-type=\"application/xhtml+xml\"/>\n<item id=\"c2\" href=\"c2.xhtml\" media-type=\"application/xhtml+xml\"/>\n<item id=\"c3\" href=\"c3.xhtml\" media-type=\"application/xhtml+xml\"/>\n";

const THREE_REFS: &str = "<itemref idref=\"c1\"/>\n<itemref idref=\"c2\"/>\n<itemref idref=\"c3\"/>\n";

const FLAT_LIST: &str = "<li><a href=\"c1.xhtml\">Chapter 1</a></li>\n<li><a href=\"c2.xhtml\">Chapter 2</a></li>\n<li><a href=\"c3.xhtml\">Chapter 3</a></li>\n";

fn sample_container() -> Vec<u8> {
    let opf = package_document(FULL_METADATA, THREE_ITEMS, THREE_REFS);
    let nav = navigation(FLAT_LIST);
    let c1 = page("one");
    let c2 = page("two");
    let c3 = page("three");
    zip_of(&[
        ("mimetype", b"application/epub+zip"),
        ("META-INF/container.xml", CONTAINER.as_bytes()),
        ("OEBPS/content.opf", opf.as_bytes()),
        ("OEBPS/nav.xhtml", nav.as_bytes()),
        ("OEBPS/c1.xhtml", c1.as_bytes()),
        ("OEBPS/c2.xhtml", c2.as_bytes()),
        ("OEBPS/c3.xhtml", c3.as_bytes()),
    ])
}


fn container_with(opf: &str, nav: &str, extra: &[(&str, &[u8])]) -> Vec<u8> {
    let mut files: Vec<(&str, &[u8])> = vec![
        ("mimetype", b"application/epub+zip"),
        ("META-INF/container.xml", CONTAINER.as_bytes()),
        ("OEBPS/content.opf", opf.as_bytes()),
        ("OEBPS/nav.xhtml", nav.as_bytes()),
    ];
    files.extend_from_slice(extra);
    zip_of(&files)
}

fn titles_and_targets(book: &EpubBook) -> Vec<(String, String)> {
    book.toc.iter().map(|e| (e.title.clone(), e.href.clone())).collect()
}

fn line(title: &str, href: &str) -> (String, String) {
    (title.to_string(), href.to_string())
}

fn load_bytes(bytes: Vec<u8>) -> Result<EpubBook, EpubError> {
    open_epub_bytes(Epub::options().strict(false).read(Cursor::new(bytes)))
}

fn reopened(bytes: Vec<u8>) -> Epub {
    Epub::options().strict(false).read(Cursor::new(bytes)).unwrap()
}

#[test]
fn sample_container_loads() {
    let book = load_bytes(sample_container()).unwrap();
    assert_eq!(book.metadata.title.as_deref(), Some("Sample Book"));
    assert_eq!(book.metadata.creator.as_deref(), Some("First Author"));
    assert_eq!(book.metadata.language.as_deref(), Some("en"));
    assert_eq!(book.metadata.identifier.as_deref(), Some("urn:uuid:1234"));
    assert_eq!(book.metadata.publisher.as_deref(), Some("First Press"));
    assert_eq!(book.metadata.description.as_deref(), Some("A short sample."));
    let chapters: Vec<(usize, &str, &str, &str)> = book
        .chapters
        .iter()
        .map(|c| (c.index, c.id.as_str(), c.href.as_str(), c.media_type.as_str()))
        .collect();
    assert_eq!(
        chapters,
        vec![
            (0, "c1", "/OEBPS/c1.xhtml", "application/xhtml+xml"),
            (1, "c2", "/OEBPS/c2.xhtml", "application/xhtml+xml"),
            (2, "c3", "/OEBPS/c3.xhtml", "application/xhtml+xml"),
        ]
    );
    assert_eq!(book.chapter_contents, vec![page("one"), page("two"), page("three")]);
    assert_eq!(book.cover_image, None);
    assert_eq!(get_chapter_count(&book), 3);
}

#[test]
fn flat_navigation_list_gives_unindented_entries() {
    let book = load_bytes(sample_container()).unwrap();
    assert_eq!(
        titles_and_targets(&book),
        vec![
            line("Chapter 1", "/OEBPS/c1.xhtml"),
            line("Chapter 2", "/OEBPS/c2.xhtml"),
            line("Chapter 3", "/OEBPS/c3.xhtml"),
        ]
    );
}

#[test]
fn nested_navigation_is_indented_by_level() {
    let list = "<li><a href=\"c1.xhtml\">A</a>\n<ol>\n<li><a href=\"c2.xhtml\">B</a></li>\n<li><a href=\"c3.xhtml#part\">C</a>\n<ol><li><a href=\"c3.xhtml\">D</a></li></ol>\n</li>\n</ol>\n</li>\n<li><span>E</span></li>\n";
    let opf = package_document(FULL_METADATA, THREE_ITEMS, THREE_REFS);
    let bytes = container_with(
        &opf,
        &navigation(list),
        &[
            ("OEBPS/c1.xhtml", page("one").as_bytes()),
            ("OEBPS/c2.xhtml", page("two").as_bytes()),
            ("OEBPS/c3.xhtml", page("three").as_bytes()),
        ],
    );
    let book = load_bytes(bytes).unwrap();
    assert_eq!(
        titles_and_targets(&book),
        vec![
            line("A", "/OEBPS/c1.xhtml"),
            line("  B", "/OEBPS/c2.xhtml"),
            line("  C", "/OEBPS/c3.xhtml#part"),
            line("    D", "/OEBPS/c3.xhtml"),
            line("E", ""),
        ]
    );
}

#[test]
fn bytes_that_are_no_container_fail_to_open() {
    let garbage = b"this is not a zip archive".to_vec();
    let cause =
        Epub::options().strict(false).read(Cursor::new(garbage.clone())).unwrap_err().to_string();
    let failure = load_bytes(garbage).unwrap_err();
    assert!(failure.message.starts_with("Failed to open EPUB from bytes: "));
    assert_eq!(failure.message, format!("Failed to open EPUB from bytes: {}", cause));
    assert!(load_bytes(Vec::new()).is_err());
}

#[test]
fn archive_without_a_package_fails_to_open() {
    let bytes = zip_of(&[("mimetype", b"application/epub+zip"), ("readme.txt", b"hello")]);
    let failure = load_bytes(bytes).unwrap_err();
    assert!(failure.message.starts_with("Failed to open EPUB from bytes: "));
    assert!(failure.message.len() > "Failed to open EPUB from bytes: ".len());
}

#[test]
fn package_without_descriptive_metadata_still_loads() {
    let opf = package_document(
        "<dc:identifier id=\"uid\">only-id</dc:identifier>\n",
        THREE_ITEMS,
        THREE_REFS,
    );
    let bytes = container_with(
        &opf,
        &navigation(FLAT_LIST),
        &[
            ("OEBPS/c1.xhtml", page("one").as_bytes()),
            ("OEBPS/c2.xhtml", page("two").as_bytes()),
            ("OEBPS/c3.xhtml", page("three").as_bytes()),
        ],
    );
    let book = load_bytes(bytes).unwrap();
    assert_eq!(book.metadata.title, None);
    assert_eq!(book.metadata.creator, None);
    assert_eq!(book.metadata.language, None);
    assert_eq!(book.metadata.publisher, None);
    assert_eq!(book.metadata.description, None);
    assert_eq!(book.metadata.identifier.as_deref(), Some("only-id"));
    assert_eq!(book.chapters.len(), 3);
}

#[test]
fn package_with_empty_metadata_still_loads() {
    let opf = package_document("", THREE_ITEMS, THREE_REFS);
    let bytes = container_with(
        &opf,
        &navigation(FLAT_LIST),
        &[
            ("OEBPS/c1.xhtml", page("one").as_bytes()),
            ("OEBPS/c2.xhtml", page("two").as_bytes()),
            ("OEBPS/c3.xhtml", page("three").as_bytes()),
        ],
    );
    let book = load_bytes(bytes).unwrap();
    assert_eq!(book.metadata.title, None);
    assert_eq!(book.metadata.creator, None);
    assert_eq!(book.metadata.language, None);
    assert_eq!(book.metadata.identifier, None);
    assert_eq!(book.metadata.publisher, None);
    assert_eq!(book.metadata.description, None);
    assert_eq!(book.chapters.len(), 3);
    assert_eq!(book.chapter_contents.len(), 3);
}

const ITEMS_WITH_COVER: &str = "<item id=\"nav\" href=\"nav.xhtml\" media-type=\"application/xhtml+xml\" properties=\"nav\"/>\n<item id=\"c1\" href=\"c1.xhtml\" media-type=\"application/xhtml+xml\"/>\n<item id=\"img\" href=\"images/cover.png\" media-type=\"image/png\" properties=\"cover-image\"/>\n";

#[test]
fn declared_cover_is_read_as_bytes() {
    let image: Vec<u8> = vec![0x89, b'P', b'N', b'G', 0, 1, 2, 3, 255];
    let opf = package_document(FULL_METADATA, ITEMS_WITH_COVER, "<itemref idref=\"c1\"/>\n");
    let bytes = container_with(
        &opf,
        &navigation("<li><a href=\"c1.xhtml\">Only</a></li>\n"),
        &[("OEBPS/c1.xhtml", page("one").as_bytes()), ("OEBPS/images/cover.png", &image)],
    );
    let book = load_bytes(bytes).unwrap();
    assert_eq!(book.cover_image, Some(image.clone()));
    assert_eq!(get_cover(&book), Some(image));
}

#[test]
fn missing_cover_resource_leaves_the_book_without_cover() {
    let opf = package_document(FULL_METADATA, ITEMS_WITH_COVER, "<itemref idref=\"c1\"/>\n");
    let bytes = container_with(
        &opf,
        &navigation("<li><a href=\"c1.xhtml\">Only</a></li>\n"),
        &[("OEBPS/c1.xhtml", page("one").as_bytes())],
    );
    let book = load_bytes(bytes).unwrap();
    assert_eq!(book.cover_image, None);
    assert_eq!(book.chapters.len(), 1);
    assert_eq!(book.chapter_contents, vec![page("one")]);
}

#[test]
fn missing_chapter_resource_fails_the_load() {
    let opf = package_document(FULL_METADATA, THREE_ITEMS, THREE_REFS);
    let bytes = container_with(
        &opf,
        &navigation(FLAT_LIST),
        &[("OEBPS/c1.xhtml", page("one").as_bytes()), ("OEBPS/c3.xhtml", page("three").as_bytes())],
    );
    let epub = reopened(bytes.clone());
    let cause = epub.manifest().by_id("c2").unwrap().read_str().unwrap_err().to_string();
    let failure = load_bytes(bytes).unwrap_err();
    assert!(failure.message.starts_with("Failed to read chapter content (c2): "));
    assert_eq!(failure.message, format!("Failed to read chapter content (c2): {}", cause));
}

#[test]
fn chapter_that_is_not_text_fails_the_load() {
    let opf = package_document(FULL_METADATA, THREE_ITEMS, THREE_REFS);
    let bytes = container_with(
        &opf,
        &navigation(FLAT_LIST),
        &[
            ("OEBPS/c1.xhtml", &[0xc3, 0x28, 0xa0, 0xa1]),
            ("OEBPS/c2.xhtml", page("two").as_bytes()),
            ("OEBPS/c3.xhtml", page("three").as_bytes()),
        ],
    );
    let failure = load_bytes(bytes).unwrap_err();
    assert!(failure.message.starts_with("Failed to read chapter content (c1): "));
}

#[test]
fn spine_entry_without_manifest_item_is_skipped() {
    let refs = "<itemref idref=\"ghost\"/>\n<itemref idref=\"c1\"/>\n<itemref idref=\"nowhere\"/>\n<itemref idref=\"c3\"/>\n";
    let opf = package_document(FULL_METADATA, THREE_ITEMS, refs);
    let bytes = container_with(
        &opf,
        &navigation(FLAT_LIST),
        &[
            ("OEBPS/c1.xhtml", page("one").as_bytes()),
            ("OEBPS/c2.xhtml", page("two").as_bytes()),
            ("OEBPS/c3.xhtml", page("three").as_bytes()),
        ],
    );
    let book = load_bytes(bytes).unwrap();
    let chapters: Vec<(usize, &str)> =
        book.chapters.iter().map(|c| (c.index, c.id.as_str())).collect();
    assert_eq!(chapters, vec![(0, "c1"), (1, "c3")]);
    assert_eq!(book.chapter_contents, vec![page("one"), page("three")]);
}

#[test]
fn loading_an_opened_container_gives_the_same_book() {
    let bytes = sample_container();
    let epub = reopened(bytes.clone());
    let from_handle = load_epub_data(&epub).unwrap();
    let from_bytes = load_bytes(bytes).unwrap();
    assert_eq!(from_handle.metadata.title, from_bytes.metadata.title);
    assert_eq!(from_handle.chapter_contents, from_bytes.chapter_contents);
    assert_eq!(titles_and_targets(&from_handle), titles_and_targets(&from_bytes));
    assert_eq!(from_handle.chapters.len(), from_bytes.chapters.len());
    assert_eq!(from_handle.cover_image, from_bytes.cover_image);
}

#[test]
fn loaded_book_outlives_the_container() {
    let book = {
        let epub = reopened(sample_container());
        load_epub_data(&epub).unwrap()
    };
    assert_eq!(read_chapter(&book, 1).unwrap(), page("two"));
    assert_eq!(read_chapter(&book, 3).unwrap_err().message, "Chapter index 3 out of range");
}

#[test]
fn several_navigation_lists_are_each_listed_whole() {
    let nav = "<?xml version=\"1.0\" encoding=\"UTF-8\"?>\n<html xmlns=\"http://www.w3.org/1999/xhtml\" xmlns:epub=\"http://www.idpf.org/2007/ops\"><head><title>nav</title></head><body>\n<nav epub:type=\"toc\"><ol><li><a href=\"c1.xhtml\">One</a></li><li><a href=\"c2.xhtml\">Two</a></li></ol></nav>\n<nav epub:type=\"landmarks\"><ol><li><a epub:type=\"bodymatter\" href=\"c1.xhtml\">Start</a></li></ol></nav>\n</body></html>\n";
    let opf = package_document(FULL_METADATA, THREE_ITEMS, THREE_REFS);
    let bytes = container_with(
        &opf,
        nav,
        &[
            ("OEBPS/c1.xhtml", page("one").as_bytes()),
            ("OEBPS/c2.xhtml", page("two").as_bytes()),
            ("OEBPS/c3.xhtml", page("three").as_bytes()),
        ],
    );
    let book = load_bytes(bytes).unwrap();
    let contents = vec![line("One", "/OEBPS/c1.xhtml"), line("Two", "/OEBPS/c2.xhtml")];
    let landmarks = vec![line("Start", "/OEBPS/c1.xhtml")];
    let listed = titles_and_targets(&book);
    let contents_first: Vec<(String, String)> =
        contents.iter().chain(landmarks.iter()).cloned().collect();
    let landmarks_first: Vec<(String, String)> =
        landmarks.iter().chain(contents.iter()).cloned().collect();
    assert!(listed == contents_first || listed == landmarks_first);
}

#[test]
fn older_package_with_ncx_navigation_loads() {
    let opf = "<?xml version=\"1.0\" encoding=\"UTF-8\"?>\n<package xmlns=\"http://www.idpf.org/2007/opf\" version=\"2.0\" unique-identifier=\"uid\">\n<metadata xmlns:dc=\"http://purl.org/dc/elements/1.1/\">\n<dc:identifier id=\"uid\">old-1</dc:identifier>\n<dc:title>Old Book</dc:title>\n<dc:language>de</dc:language>\n</metadata>\n<manifest>\n<item id=\"ncx\" href=\"toc.ncx\" media-type=\"application/x-dtbncx+xml\"/>\n<item id=\"first\" href=\"text/first.html\" media-type=\"text/html\"/>\n</manifest>\n<spine toc=\"ncx\">\n<itemref idref=\"first\"/>\n</spine>\n</package>\n";
    let ncx = "<?xml version=\"1.0\" encoding=\"UTF-8\"?>\n<ncx xmlns=\"http://www.daisy.org/z3986/2005/ncx/\" version=\"2005-1\">\n<head></head>\n<docTitle><text>Old Book</text></docTitle>\n<navMap>\n<navPoint id=\"np-a\" playOrder=\"1\"><navLabel><text>Part</text></navLabel><content src=\"text/first.html\"/>\n<navPoint id=\"np-b\" playOrder=\"2\"><navLabel><text>Section</text></navLabel><content src=\"text/first.html#s\"/></navPoint>\n</navPoint>\n</navMap>\n</ncx>\n";
    let bytes = zip_of(&[
        ("mimetype", b"application/epub+zip"),
        ("META-INF/container.xml", CONTAINER.as_bytes()),
        ("OEBPS/content.opf", opf.as_bytes()),
        ("OEBPS/toc.ncx", ncx.as_bytes()),
        ("OEBPS/text/first.html", b"<html><body>old</body></html>"),
    ]);
    let book = load_bytes(bytes).unwrap();
    assert_eq!(book.metadata.title.as_deref(), Some("Old Book"));
    assert_eq!(book.metadata.language.as_deref(), Some("de"));
    assert_eq!(book.metadata.creator, None);
    assert_eq!(book.chapters.len(), 1);
    assert_eq!(book.chapters[0].id, "first");
    assert_eq!(book.chapters[0].href, "/OEBPS/text/first.html");
    assert_eq!(book.chapters[0].media_type, "text/html");
    assert_eq!(book.chapter_contents, vec!["<html><body>old</body></html>"]);
    assert_eq!(
        titles_and_targets(&book),
        vec![
            line("Part", "/OEBPS/text/first.html"),
            line("  Section", "/OEBPS/text/first.html#s"),
        ]
    );
}

#[test]
fn damaged_containers_fail_cleanly_or_load_aligned_books() {
    let whole = sample_container();
    let mut variants: Vec<Vec<u8>> = Vec::new();
    let mut cut = 0;
    while cut < whole.len() {
        variants.push(whole[..cut].to_vec());
        cut += 97;
    }
    let mut at = 3;
    while at < whole.len() {
        let mut changed = whole.clone();
        changed[at] ^= 0x5a;
        variants.push(changed);
        at += 151;
    }
    for bytes in variants {
        match load_bytes(bytes) {
            Ok(book) => {
                assert_eq!(book.chapters.len(), book.chapter_contents.len());
                for (position, info) in book.chapters.iter().enumerate() {
                    assert_eq!(info.index, position);
                }
            }
            Err(failure) => {
                assert!(
                    failure.message.starts_with("Failed to open EPUB from bytes: ")
                        || failure.message.starts_with("Failed to read chapter content (")
                );
            }
        }
    }
}

#[test]
fn loaded_chapters_are_numbered_by_position() {
    let book = load_bytes(sample_container()).unwrap();
    assert_eq!(book.chapters.len(), book.chapter_contents.len());
    for (position, info) in book.chapters.iter().enumerate() {
        assert_eq!(info.index, position);
        assert_eq!(read_chapter(&book, position).unwrap(), book.chapter_contents[position]);
    }
    let count = get_chapter_count(&book);
    assert_eq!(
        read_chapter(&book, count).unwrap_err().message,
        format!("Chapter index {} out of range", count)
    );
}

#[test]
fn navigation_nested_six_levels_deep_is_read_whole() {
    let list = "<li><a href=\"c1.xhtml\">L1</a><ol><li><a href=\"c1.xhtml#2\">L2</a><ol><li><a href=\"c1.xhtml#3\">L3</a><ol><li><a href=\"c1.xhtml#4\">L4</a><ol><li><a href=\"c1.xhtml#5\">L5</a><ol><li><a href=\"c1.xhtml#6\">L6</a></li></ol></li></ol></li></ol></li></ol></li>\n<li><a href=\"c2.xhtml\">Side</a></li></ol></li>\n<li><a href=\"c3.xhtml\">Last</a></li>\n";
    let opf = package_document(FULL_METADATA, THREE_ITEMS, THREE_REFS);
    let bytes = container_with(
        &opf,
        &navigation(list),
        &[
            ("OEBPS/c1.xhtml", page("one").as_bytes()),
            ("OEBPS/c2.xhtml", page("two").as_bytes()),
            ("OEBPS/c3.xhtml", page("three").as_bytes()),
        ],
    );
    let book = load_bytes(bytes).unwrap();
    assert_eq!(
        titles_and_targets(&book),
        vec![
            line("L1", "/OEBPS/c1.xhtml"),
            line("  L2", "/OEBPS/c1.xhtml#2"),
            line("    L3", "/OEBPS/c1.xhtml#3"),
            line("      L4", "/OEBPS/c1.xhtml#4"),
            line("        L5", "/OEBPS/c1.xhtml#5"),
            line("          L6", "/OEBPS/c1.xhtml#6"),
            line("  Side", "/OEBPS/c2.xhtml"),
            line("Last", "/OEBPS/c3.xhtml"),
        ]
    );
}

#[test]
fn reading_stops_at_the_first_missing_chapter() {
    let opf = package_document(FULL_METADATA, THREE_ITEMS, THREE_REFS);
    let bytes = container_with(
        &opf,
        &navigation(FLAT_LIST),
        &[("OEBPS/c3.xhtml", page("three").as_bytes())],
    );
    let epub = reopened(bytes.clone());
    let cause = epub.manifest().by_id("c1").unwrap().read_str().unwrap_err().to_string();
    let failure = load_bytes(bytes).unwrap_err();
    assert_eq!(failure.message, format!("Failed to read chapter content (c1): {}", cause));
}

#[test]
fn failed_opening_is_reported_for_a_path_and_for_bytes() {
    let garbage = b"PK but no archive".to_vec();
    let cause =
        Epub::options().strict(false).read(Cursor::new(garbage.clone())).unwrap_err().to_string();
    let from_path =
        open_epub(Epub::options().strict(false).read(Cursor::new(garbage.clone()))).unwrap_err();
    assert_eq!(from_path.message, format!("Failed to open EPUB: {}", cause));
    let from_bytes =
        open_epub_bytes(Epub::options().strict(false).read(Cursor::new(garbage))).unwrap_err();
    assert_eq!(from_bytes.message, format!("Failed to open EPUB from bytes: {}", cause));
}

#[test]
fn opened_container_loads_the_same_by_either_entry() {
    let by_path = open_epub(Ok(reopened(sample_container()))).unwrap();
    let by_bytes = open_epub_bytes(Ok(reopened(sample_container()))).unwrap();
    assert_eq!(by_path.chapter_contents, by_bytes.chapter_contents);
    assert_eq!(titles_and_targets(&by_path), titles_and_targets(&by_bytes));
    assert_eq!(by_path.metadata.creator.as_deref(), Some("First Author"));
    assert_eq!(by_path.metadata.publisher.as_deref(), Some("First Press"));
}

#[test]
fn reading_order_that_names_no_item_loads_an_empty_book() {
    let refs = "<itemref idref=\"ghost\"/>\n<itemref idref=\"nowhere\"/>\n";
    let opf = package_document(FULL_METADATA, THREE_ITEMS, refs);
    let bytes = container_with(&opf, &navigation(FLAT_LIST), &[]);
    let book = load_bytes(bytes).unwrap();
    assert!(book.chapters.is_empty());
    assert!(book.chapter_contents.is_empty());
    assert_eq!(book.metadata.title.as_deref(), Some("Sample Book"));
    assert_eq!(book.toc.len(), 3);
}

#[test]
fn deeply_nested_navigation_is_read_level_by_level() {
    let depth = 1200;
    let mut list = String::new();
    for level in 0..depth {
        list.push_str(&format!("<li><a href=\"c1.xhtml#{}\">N{}</a><ol>", level, level));
    }
    list.push_str("<li><a href=\"c2.xhtml\">bottom</a></li>");
    for _ in 0..depth {
        list.push_str("</ol></li>");
    }
    list.push('\n');
    let opf = package_document(FULL_METADATA, THREE_ITEMS, THREE_REFS);
    let bytes = container_with(
        &opf,
        &navigation(&list),
        &[
            ("OEBPS/c1.xhtml", page("one").as_bytes()),
            ("OEBPS/c2.xhtml", page("two").as_bytes()),
            ("OEBPS/c3.xhtml", page("three").as_bytes()),
        ],
    );
    let book = load_bytes(bytes).unwrap();
    assert_eq!(book.toc.len(), depth + 1);
    assert_eq!(book.toc[0].title, "N0");
    assert_eq!(book.toc[1].title, "  N1");
    assert_eq!(book.toc[7].href, "/OEBPS/c1.xhtml#7");
    assert_eq!(book.toc[depth].title, format!("{}bottom", "  ".repeat(depth)));
    assert_eq!(book.toc[depth].href, "/OEBPS/c2.xhtml");
}

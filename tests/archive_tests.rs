use archive_reader::{Archive, EntryKind, Error, RawEntry, Source};

fn file(name: &str, data: &[u8]) -> RawEntry {
    RawEntry::file(name.as_bytes().to_vec(), data.to_vec())
}

fn dir(name: &str) -> RawEntry {
    RawEntry::directory(name.as_bytes().to_vec())
}

fn zip_archive() -> Source {
    Source::Members(vec![
        dir("content/"),
        file("content/first", b"first\n"),
        file("content/third", b"third\n"),
        dir("content/nested/"),
        file("content/nested/second", b"second\n"),
    ])
}

fn seven_z_archive() -> Source {
    Source::Members(vec![
        dir("content/"),
        dir("content/nested/"),
        file("content/first", b"first\n"),
        file("content/nested/second", b"second\n"),
        file("content/third", b"third\n"),
    ])
}

fn rar_archive() -> Source {
    Source::Members(vec![
        file("content/first", b"first\n"),
        file("content/third", b"third\n"),
        file("content/nested/second", b"second\n"),
        dir("content/nested"),
        dir("content"),
    ])
}

fn large_text() -> Vec<u8> {
    let mut text = Vec::new();
    for line in 0..2000u32 {
        text.extend_from_slice(format!("line {line} of the large text\n").as_bytes());
    }
    text
}

fn test_list_file_names(source: Source, expected: &[&str]) -> Result<(), Error> {
    let file_names = Archive::open(source).list_file_names()?;
    assert_eq!(file_names, expected);
    Ok(())
}

fn test_read_file_to_bytes(source: Source, content_path: &str, expected: &[u8]) -> Result<(), Error> {
    let mut output = vec![];
    let _ = Archive::open(source).read_file(content_path, &mut output)?;
    assert_eq!(output, expected);
    Ok(())
}

#[test]
fn test_list_zip_file_names() -> Result<(), Error> {
    let expected = [
        "content/",
        "content/first",
        "content/third",
        "content/nested/",
        "content/nested/second",
    ];
    test_list_file_names(zip_archive(), &expected)
}

#[test]
fn test_list_7z_file_names() -> Result<(), Error> {
    let expected = [
        "content/",
        "content/nested/",
        "content/first",
        "content/nested/second",
        "content/third",
    ];
    test_list_file_names(seven_z_archive(), &expected)
}

#[test]
fn test_list_rar_file_names() -> Result<(), Error> {
    let expected = [
        "content/first",
        "content/third",
        "content/nested/second",
        "content/nested",
        "content",
    ];
    test_list_file_names(rar_archive(), &expected)
}

#[test]
fn test_read_zip() -> Result<(), Error> {
    test_read_file_to_bytes(zip_archive(), "content/nested/second", b"second\n")
}

#[test]
fn test_read_7z() -> Result<(), Error> {
    test_read_file_to_bytes(seven_z_archive(), "content/nested/second", b"second\n")
}

#[test]
fn test_read_rar() -> Result<(), Error> {
    test_read_file_to_bytes(rar_archive(), "content/nested/second", b"second\n")
}

#[test]
#[should_panic]
fn test_read_non_existing_file() {
    test_read_file_to_bytes(zip_archive(), "not_existed", b"").unwrap()
}

#[test]
fn test_empty_file() -> Result<(), Error> {
    let empty = Source::Members(vec![file("empty", b"")]);
    test_read_file_to_bytes(empty, "empty", b"")
}

#[test]
fn test_read_dir() -> Result<(), Error> {
    test_read_file_to_bytes(zip_archive(), "content/", b"")
}

#[test]
fn test_read_by_blocks() -> Result<(), Error> {
    let expected = large_text();
    let large = Source::Members(vec![file("large.txt", &expected)]);
    let mut num_of_blocks = 0_usize;
    let mut bytes = Vec::new();
    let mut blocks = Archive::open(large).block_size(1024).read_file_by_block("large.txt")?;
    while let Some(block) = blocks.next() {
        let block = block?;
        num_of_blocks += 1;
        bytes.extend(block.iter());
    }
    assert!(num_of_blocks > 1);
    assert_eq!(expected, bytes);
    Ok(())
}

#[test]
fn test_file_names_from_entries() -> Result<(), Error> {
    let mut names = vec![];
    let mut archive = Archive::open(zip_archive());
    while let Some(entry) = archive.next_entry()? {
        let file_name = entry.file_name()?;
        names.push(file_name);
    }
    let expected = [
        "content/",
        "content/first",
        "content/third",
        "content/nested/",
        "content/nested/second",
    ];
    assert_eq!(names, expected);
    Ok(())
}

#[test]
fn test_file_content_from_entries() -> Result<(), Error> {
    let mut all_content = vec![];
    let mut archive = Archive::open(zip_archive());
    while let Some(mut entry) = archive.next_entry()? {
        let mut content = Vec::<u8>::new();
        let mut blocks = entry.read_file_by_block();
        while let Some(block) = blocks.next() {
            content.extend(block?.iter())
        }
        all_content.push(content);
    }
    let expected: Vec<&[u8]> = vec![b"", b"first\n", b"third\n", b"", b"second\n"];
    assert_eq!(expected, all_content);
    Ok(())
}

#[test]
fn test_entry_name_reproducible() -> Result<(), Error> {
    let mut archive = Archive::open(zip_archive());
    while let Some(entry) = archive.next_entry()? {
        assert_eq!(entry.file_name()?, entry.file_name()?);
    }
    Ok(())
}

#[test]
fn read_file_twice_on_one_entry_writes_once() -> Result<(), Error> {
    let mut archive = Archive::open(zip_archive());
    let _ = archive.next_entry()?;
    let mut entry = archive.next_entry()?.unwrap();
    let mut output = Vec::new();
    assert_eq!(entry.read_file(&mut output)?, 6);
    assert_eq!(output, b"first\n");
    assert_eq!(entry.read_file(&mut output)?, 0);
    assert_eq!(output, b"first\n");
    let mut blocks = entry.read_file_by_block();
    assert!(blocks.next().is_none());
    Ok(())
}

#[test]
fn blocks_after_whole_read_are_empty() -> Result<(), Error> {
    let mut archive = Archive::open(zip_archive());
    let _ = archive.next_entry()?;
    let mut entry = archive.next_entry()?.unwrap();
    let mut blocks = entry.read_file_by_block();
    assert_eq!(blocks.next(), Some(Ok(b"first\n".to_vec())));
    assert_eq!(blocks.next(), None);
    assert_eq!(blocks.next(), None);
    let mut output = Vec::new();
    assert_eq!(entry.read_file(&mut output)?, 0);
    assert!(output.is_empty());
    Ok(())
}

#[test]
fn blocks_join_to_whole_content_for_each_size() -> Result<(), Error> {
    let text = large_text();
    for size in [1usize, 7, 1024, 4096, text.len(), text.len() + 1] {
        let mut whole = Vec::new();
        let n = Archive::open(Source::Members(vec![file("large.txt", &text)]))
            .read_file("large.txt", &mut whole)?;
        assert_eq!(n, text.len());
        let mut blocks = Archive::open(Source::Members(vec![file("large.txt", &text)]))
            .block_size(size)
            .read_file_by_block("large.txt")?;
        let mut joined = Vec::new();
        let mut count = 0usize;
        while let Some(block) = blocks.next() {
            let block = block?;
            assert!(!block.is_empty());
            assert!(block.len() <= size);
            joined.extend(block);
            count += 1;
        }
        assert_eq!(joined, whole);
        assert_eq!(count, (text.len() + size - 1) / size);
    }
    Ok(())
}

#[test]
fn zero_block_size_is_taken_as_one() -> Result<(), Error> {
    let mut blocks = Archive::open(zip_archive()).block_size(0).read_file_by_block("content/first")?;
    let mut count = 0usize;
    while let Some(block) = blocks.next() {
        assert_eq!(block?.len(), 1);
        count += 1;
    }
    assert_eq!(count, 6);
    Ok(())
}

#[test]
fn names_after_skipping_read_continue_in_order() -> Result<(), Error> {
    let mut archive = Archive::open(zip_archive());
    let mut output = Vec::new();
    assert_eq!(archive.read_file("content/first", &mut output)?, 6);
    let rest = archive.list_file_names()?;
    assert_eq!(rest, ["content/third", "content/nested/", "content/nested/second"]);
    Ok(())
}

#[test]
fn unrecognized_source_fails_with_open() {
    let mut output = Vec::new();
    assert_eq!(Archive::open(Source::Unrecognized).list_file_names(), Err(Error::Open));
    assert_eq!(
        Archive::open(Source::Unrecognized).read_file("content/first", &mut output),
        Err(Error::Open)
    );
    assert!(matches!(Archive::open(Source::Unrecognized).next_entry(), Err(Error::Open)));
    assert!(output.is_empty());
}

#[test]
fn absent_path_is_not_found() {
    let mut output = Vec::new();
    assert_eq!(Archive::open(zip_archive()).read_file("content/fourth", &mut output), Err(Error::NotFound));
    assert!(matches!(
        Archive::open(rar_archive()).read_file_by_block("content/"),
        Err(Error::NotFound)
    ));
    assert!(output.is_empty());
}

#[test]
fn undecodable_name_fails_with_encoding() {
    let members = vec![RawEntry::file(vec![0x66, 0xff, 0x66], b"x".to_vec()), file("ok", b"y")];
    assert_eq!(Archive::open(Source::Members(members)).list_file_names(), Err(Error::Encoding));
    let members = vec![RawEntry::file(vec![0xc3, 0x28], b"x".to_vec()), file("ok", b"y")];
    let mut output = Vec::new();
    assert_eq!(Archive::open(Source::Members(members)).read_file("ok", &mut output), Err(Error::Encoding));
}

#[test]
fn utf8_names_are_decoded() -> Result<(), Error> {
    let members = vec![RawEntry::file("caf\u{e9}/\u{65e5}\u{672c}".as_bytes().to_vec(), b"z".to_vec())];
    let names = Archive::open(Source::Members(members)).list_file_names()?;
    assert_eq!(names, ["caf\u{e9}/\u{65e5}\u{672c}"]);
    Ok(())
}

#[test]
fn missing_name_fails_with_invalid_data() {
    let members = vec![RawEntry { name: None, kind: EntryKind::File, data: b"x".to_vec(), fault: None }];
    let mut archive = Archive::open(Source::Members(members));
    let entry = archive.next_entry().unwrap().unwrap();
    assert_eq!(entry.file_name(), Err(Error::InvalidData));
}

#[test]
fn damaged_content_fails_with_engine_after_delivered_bytes() {
    let members = vec![RawEntry {
        name: Some(b"broken".to_vec()),
        kind: EntryKind::File,
        data: b"abcdefgh".to_vec(),
        fault: Some(5),
    }];
    let mut output = Vec::new();
    assert_eq!(Archive::open(Source::Members(members)).read_file("broken", &mut output), Err(Error::Engine));
    assert_eq!(output, b"abcde");

    let members = vec![RawEntry {
        name: Some(b"broken".to_vec()),
        kind: EntryKind::File,
        data: b"abcdefgh".to_vec(),
        fault: Some(5),
    }];
    let mut blocks = Archive::open(Source::Members(members)).block_size(3).read_file_by_block("broken").unwrap();
    assert_eq!(blocks.next(), Some(Ok(b"abc".to_vec())));
    assert_eq!(blocks.next(), Some(Ok(b"de".to_vec())));
    assert_eq!(blocks.next(), Some(Err(Error::Engine)));
    assert_eq!(blocks.next(), None);
}

#[test]
fn directory_with_stray_bytes_reads_empty() -> Result<(), Error> {
    let members = vec![RawEntry {
        name: Some(b"d/".to_vec()),
        kind: EntryKind::Directory,
        data: b"stray".to_vec(),
        fault: None,
    }];
    let mut output = Vec::new();
    assert_eq!(Archive::open(Source::Members(members)).read_file("d/", &mut output)?, 0);
    assert!(output.is_empty());
    Ok(())
}

#[test]
fn empty_reader_ends_at_once() {
    let mut blocks = archive_reader::BlockReader::empty();
    assert_eq!(blocks.next(), None);
}

#[test]
fn error_messages_name_the_failure() {
    assert_eq!(Error::NotFound.message(), "entry not found in archive");
    assert_eq!(Error::Encoding.message(), "failed to decode entry name");
}

#[test]
fn default_block_size_delivers_small_file_in_one_block() -> Result<(), Error> {
    let mut blocks = Archive::open(zip_archive()).read_file_by_block("content/nested/second")?;
    assert_eq!(blocks.next(), Some(Ok(b"second\n".to_vec())));
    assert_eq!(blocks.next(), None);
    Ok(())
}

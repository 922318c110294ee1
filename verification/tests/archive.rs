//! End-to-end tests: building archives with the writer and reading them
//! back through the reader.

use xp3::archive::XP3Archive;
use xp3::header::XP3HeaderVersion;
use xp3::index::file::{IndexInfoFlag, IndexSegmentFlag};
use xp3::index_set::XP3IndexCompression;
use xp3::reader::XP3Reader;
use xp3::writer::XP3Writer;
use xp3::XP3ErrorKind;

fn build_single_entry_archive() -> Vec<u8> {
    let writer = XP3Writer::start(XP3HeaderVersion::Old, XP3IndexCompression::UnCompressed);
    let mut entry = writer.enter_file(IndexInfoFlag::NotProtected, String::from("a.txt"), None);
    entry.write_segment(IndexSegmentFlag::UnCompressed, b"hello").unwrap();
    let writer = entry.finish();
    let (_, bytes) = writer.finish().unwrap();
    bytes
}

fn unpack(archive: &XP3Archive, name: &str) -> Result<Vec<u8>, xp3::XP3Error> {
    let mut out: Vec<u8> = Vec::new();
    archive.unpack(&String::from(name), &mut out)?;
    Ok(out)
}

#[test]
fn single_entry_unpacks() {
    let bytes = build_single_entry_archive();
    let archive = XP3Reader::open_archive(bytes).unwrap();
    assert_eq!(unpack(&archive, "a.txt").unwrap(), b"hello");
    let entries = archive.entries();
    assert_eq!(entries.len(), 1);
    assert_eq!(entries[0].info().name(), "a.txt");
    assert!(matches!(entries[0].info().flag(), IndexInfoFlag::NotProtected));
    assert!(entries[0].time().is_none());
}

#[test]
fn missing_entry_is_file_not_found() {
    let bytes = build_single_entry_archive();
    let archive = XP3Reader::open_archive(bytes).unwrap();
    let err = unpack(&archive, "missing.txt").unwrap_err();
    assert_eq!(*err.kind(), XP3ErrorKind::FileNotFound);
}

#[test]
fn magic_rejection() {
    let mut bytes = build_single_entry_archive();
    bytes[0] = b'Z';
    let err = XP3Reader::open_archive(bytes).unwrap_err();
    assert_eq!(*err.kind(), XP3ErrorKind::InvalidFile);
}

#[test]
fn check_archive_magic() {
    let bytes = build_single_entry_archive();
    assert!(XP3Reader::check_archive(&bytes).is_ok());
    let err = XP3Reader::check_archive(&bytes[..9]).unwrap_err();
    assert_eq!(*err.kind(), XP3ErrorKind::Io);
    let mut wrong = bytes.clone();
    wrong[9] = 0;
    let err = XP3Reader::check_archive(&wrong).unwrap_err();
    assert_eq!(*err.kind(), XP3ErrorKind::InvalidFile);
}

#[test]
fn multi_segment_reconstruction() {
    // One file in two segments, one deflated and one raw: unpacking yields
    // the concatenation of the original bytes, in index order.
    let writer = XP3Writer::start(XP3HeaderVersion::Old, XP3IndexCompression::UnCompressed);
    let mut entry = writer.enter_file(IndexInfoFlag::NotProtected, String::from("two.bin"), None);
    let first = b"the first segment, stored deflated; ".repeat(8);
    let stored = entry.write_segment(IndexSegmentFlag::Compressed, &first).unwrap();
    assert_ne!(stored as usize, first.len());
    entry.write_segment(IndexSegmentFlag::UnCompressed, b"and the raw tail").unwrap();
    let writer = entry.finish();
    let (container, bytes) = writer.finish().unwrap();

    let index = container.index_set().get(&String::from("two.bin")).unwrap();
    assert_eq!(index.segments().len(), 2);
    assert!(matches!(index.segments()[0].flag(), IndexSegmentFlag::Compressed));
    assert!(matches!(index.segments()[1].flag(), IndexSegmentFlag::UnCompressed));
    assert_eq!(index.info().file_size(), first.len() as u64 + 16);

    let archive = XP3Reader::open_archive(bytes).unwrap();
    let mut expected = first.clone();
    expected.extend_from_slice(b"and the raw tail");
    assert_eq!(unpack(&archive, "two.bin").unwrap(), expected);
}

#[test]
fn versioned_header_archive_round_trips() {
    let writer = XP3Writer::start(
        XP3HeaderVersion::Current { minor_version: 1, index_size_offset: 0 },
        XP3IndexCompression::UnCompressed,
    );
    let mut entry = writer.enter_file(
        IndexInfoFlag::Protected,
        String::from("data"),
        Some(123456789),
    );
    entry.write_segment(IndexSegmentFlag::UnCompressed, &[1, 2, 3]).unwrap();
    let writer = entry.finish();
    let (_, bytes) = writer.finish().unwrap();
    let archive = XP3Reader::open_archive(bytes).unwrap();
    let container = archive.container();
    assert!(matches!(
        container.header().version(),
        XP3HeaderVersion::Current { minor_version: 1, index_size_offset: 0 }
    ));
    let index = container.index_set().get(&String::from("data")).unwrap();
    assert!(matches!(index.info().flag(), IndexInfoFlag::Protected));
    assert_eq!(index.time().unwrap().timestamp(), 123456789);
    assert_eq!(unpack(&archive, "data").unwrap(), vec![1, 2, 3]);
}

#[test]
fn compressed_index_archive_round_trips() {
    let writer = XP3Writer::start(XP3HeaderVersion::Old, XP3IndexCompression::Compressed);
    let mut entry = writer.enter_file(IndexInfoFlag::NotProtected, String::from("a.txt"), None);
    entry.write_segment(IndexSegmentFlag::UnCompressed, b"hello").unwrap();
    let writer = entry.finish();
    let (_, bytes) = writer.finish().unwrap();
    let archive = XP3Reader::open_archive(bytes).unwrap();
    assert!(matches!(
        archive.container().index_set().compression(),
        XP3IndexCompression::Compressed
    ));
    assert_eq!(unpack(&archive, "a.txt").unwrap(), b"hello");
}

#[test]
fn writer_records_known_adler() {
    // Adler-32 of "hello" per its public definition.
    let bytes = build_single_entry_archive();
    let archive = XP3Reader::open_archive(bytes).unwrap();
    let index = archive.container().index_set().get(&String::from("a.txt")).unwrap();
    assert_eq!(index.adler().checksum(), 0x062c_0215);
}

#[test]
fn writer_round_trips_non_ascii_name() {
    let writer = XP3Writer::start(XP3HeaderVersion::Old, XP3IndexCompression::UnCompressed);
    let name = String::from("data/\u{65e5}\u{8a18}\u{1f4b0}.txt");
    let mut entry = writer.enter_file(IndexInfoFlag::NotProtected, name.clone(), None);
    entry.write_segment(IndexSegmentFlag::UnCompressed, &[7]).unwrap();
    let writer = entry.finish();
    let (_, bytes) = writer.finish().unwrap();
    let archive = XP3Reader::open_archive(bytes).unwrap();
    assert_eq!(archive.entries()[0].info().name(), &name);
    assert_eq!(unpack(&archive, name.as_str()).unwrap(), vec![7]);
}

#[test]
fn later_entry_of_same_name_wins() {
    let writer = XP3Writer::start(XP3HeaderVersion::Old, XP3IndexCompression::UnCompressed);
    let mut entry = writer.enter_file(IndexInfoFlag::NotProtected, String::from("a"), None);
    entry.write_segment(IndexSegmentFlag::UnCompressed, b"old").unwrap();
    let writer = entry.finish();
    let mut entry = writer.enter_file(IndexInfoFlag::NotProtected, String::from("a"), None);
    entry.write_segment(IndexSegmentFlag::UnCompressed, b"new").unwrap();
    let writer = entry.finish();
    let (_, bytes) = writer.finish().unwrap();
    let archive = XP3Reader::open_archive(bytes).unwrap();
    assert_eq!(archive.entries().len(), 1);
    assert_eq!(unpack(&archive, "a").unwrap(), b"new");
}

#[test]
fn truncated_archive_is_io() {
    let bytes = build_single_entry_archive();
    let err = XP3Reader::open_archive(bytes[..12].to_vec()).unwrap_err();
    assert_eq!(*err.kind(), XP3ErrorKind::Io);
}

#[test]
fn close_returns_container_and_bytes() {
    let bytes = build_single_entry_archive();
    let archive = XP3Reader::open_archive(bytes.clone()).unwrap();
    let (container, returned) = archive.close();
    assert_eq!(returned, bytes);
    assert_eq!(container.index_set().file_map().len(), 1);
}

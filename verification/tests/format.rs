//! Wire-format tests: headers, fragments, records and the index set.

use xp3::header::{XP3Header, XP3HeaderVersion};
use xp3::index::file::{
    IndexInfoFlag, IndexSegmentFlag, XP3FileIndex, XP3FileIndexAdler, XP3FileIndexInfo,
    XP3FileIndexSegment, XP3FileIndexTime,
};
use xp3::index::XP3Index;
use xp3::index_set::{XP3IndexCompression, XP3IndexSet};
use xp3::{
    XP3ErrorKind, XP3_INDEX_ADLR_IDENTIFIER, XP3_INDEX_INFO_IDENTIFIER, XP3_INDEX_SEGM_IDENTIFIER,
    XP3_INDEX_TIME_IDENTIFIER,
};

#[test]
fn header_round_trip_legacy() {
    let header = XP3Header::new(XP3HeaderVersion::Old);
    let mut out: Vec<u8> = Vec::new();
    let written = header.write_bytes(&mut out);
    assert_eq!(written, 0);
    assert!(out.is_empty());
    // A legacy stream continues with the index-offset pointer, which must
    // not spell the version marker.
    let tail = [0u8, 1, 0, 0, 0, 0, 0, 0];
    let (consumed, decoded) = XP3Header::from_bytes(&tail, 0).unwrap();
    assert_eq!(consumed, 0);
    assert!(matches!(decoded.version(), XP3HeaderVersion::Old));
}

#[test]
fn header_round_trip_versioned() {
    let header = XP3Header::new(XP3HeaderVersion::Current {
        minor_version: 7,
        index_size_offset: 0x0123456789abcdef,
    });
    let mut out: Vec<u8> = Vec::new();
    let written = header.write_bytes(&mut out);
    assert_eq!(written, 21);
    assert_eq!(out.len(), 21);
    let (consumed, decoded) = XP3Header::from_bytes(&out, 0).unwrap();
    assert_eq!(consumed, 21);
    assert!(matches!(
        decoded.version(),
        XP3HeaderVersion::Current { minor_version: 7, index_size_offset: 0x0123456789abcdef }
    ));
}

#[test]
fn header_rejects_wrong_identifier_byte() {
    let header = XP3Header::new(XP3HeaderVersion::Current { minor_version: 1, index_size_offset: 0 });
    let mut out: Vec<u8> = Vec::new();
    header.write_bytes(&mut out);
    out[12] = 0x7f;
    let err = XP3Header::from_bytes(&out, 0).unwrap_err();
    assert_eq!(*err.kind(), XP3ErrorKind::InvalidHeader);
}

#[test]
fn tlv_round_trip() {
    let record = XP3Index::new(0x12345678, vec![9, 8, 7]);
    let mut out: Vec<u8> = Vec::new();
    let written = record.write_bytes(&mut out).unwrap();
    assert_eq!(written, 15);
    assert_eq!(out, vec![0x78, 0x56, 0x34, 0x12, 3, 0, 0, 0, 0, 0, 0, 0, 9, 8, 7]);
    let (consumed, decoded) = XP3Index::from_bytes(&out, 0).unwrap();
    assert_eq!(consumed, 15);
    assert_eq!(decoded.identifier(), 0x12345678);
    assert_eq!(decoded.data(), &vec![9, 8, 7]);
}

#[test]
fn tlv_truncated_payload_is_io() {
    let mut out: Vec<u8> = Vec::new();
    XP3Index::new(1, vec![1, 2, 3, 4]).write_bytes(&mut out).unwrap();
    out.pop();
    let err = XP3Index::from_bytes(&out, 0).unwrap_err();
    assert_eq!(*err.kind(), XP3ErrorKind::Io);
}

#[test]
fn info_encodes_utf16_name() {
    let info = XP3FileIndexInfo::new(IndexInfoFlag::NotProtected, 5, 5, String::from("ab"));
    let mut out: Vec<u8> = Vec::new();
    let written = info.write_bytes(&mut out);
    assert_eq!(written, 26);
    let mut expected = vec![0u8, 0, 0, 0];
    expected.extend_from_slice(&5u64.to_le_bytes());
    expected.extend_from_slice(&5u64.to_le_bytes());
    expected.extend_from_slice(&2u16.to_le_bytes());
    expected.extend_from_slice(&[0x61, 0x00, 0x62, 0x00]);
    assert_eq!(out, expected);
    let (consumed, decoded) = XP3FileIndexInfo::from_bytes(&out).unwrap();
    assert_eq!(consumed, 26);
    assert_eq!(decoded.name(), "ab");
    assert_eq!(decoded.file_size(), 5);
    assert_eq!(decoded.saved_file_size(), 5);
    assert!(matches!(decoded.flag(), IndexInfoFlag::NotProtected));
}

#[test]
fn info_rejects_unknown_flag() {
    let mut out: Vec<u8> = Vec::new();
    XP3FileIndexInfo::new(IndexInfoFlag::Protected, 1, 1, String::from("x")).write_bytes(&mut out);
    out[0] = 5;
    out[3] = 0;
    let err = XP3FileIndexInfo::from_bytes(&out).unwrap_err();
    assert_eq!(*err.kind(), XP3ErrorKind::InvalidFileIndex);
}

#[test]
fn segment_round_trip() {
    let seg = XP3FileIndexSegment::new(IndexSegmentFlag::Compressed, 19, 100, 42);
    let mut out: Vec<u8> = Vec::new();
    let written = seg.write_bytes(&mut out);
    assert_eq!(written, 28);
    let (consumed, decoded) = XP3FileIndexSegment::from_bytes(&out, 0).unwrap();
    assert_eq!(consumed, 28);
    assert_eq!(decoded, seg);
}

#[test]
fn segment_rejects_unknown_flag() {
    let mut out: Vec<u8> = Vec::new();
    XP3FileIndexSegment::new(IndexSegmentFlag::UnCompressed, 0, 0, 0).write_bytes(&mut out);
    out[0] = 5;
    let err = XP3FileIndexSegment::from_bytes(&out, 0).unwrap_err();
    assert_eq!(*err.kind(), XP3ErrorKind::InvalidFileIndex);
}

#[test]
fn time_and_adler_round_trip() {
    let mut out: Vec<u8> = Vec::new();
    assert_eq!(XP3FileIndexTime::new(0xfeed).write_bytes(&mut out), 8);
    let (consumed, time) = XP3FileIndexTime::from_bytes(&out).unwrap();
    assert_eq!(consumed, 8);
    assert_eq!(time.timestamp(), 0xfeed);

    let mut out: Vec<u8> = Vec::new();
    assert_eq!(XP3FileIndexAdler::new(0xdead_beef).write_bytes(&mut out), 4);
    let (consumed, adler) = XP3FileIndexAdler::from_bytes(&out).unwrap();
    assert_eq!(consumed, 4);
    assert_eq!(adler.checksum(), 0xdead_beef);
}

fn sample_file_index(name: &str) -> XP3FileIndex {
    XP3FileIndex::new(
        XP3FileIndexInfo::new(IndexInfoFlag::NotProtected, 5, 5, String::from(name)),
        vec![XP3FileIndexSegment::new(IndexSegmentFlag::UnCompressed, 19, 5, 5)],
        XP3FileIndexAdler::new(1),
        Some(XP3FileIndexTime::new(77)),
    )
}

#[test]
fn file_index_round_trip() {
    let index = sample_file_index("a.txt");
    let mut payload: Vec<u8> = Vec::new();
    let written = index.write_bytes(&mut payload).unwrap();
    assert_eq!(written as usize, payload.len());
    let (walked, decoded) = XP3FileIndex::from_bytes(payload.len() as u64, &payload).unwrap();
    assert_eq!(walked as usize, payload.len());
    assert_eq!(decoded.info().name(), "a.txt");
    assert_eq!(decoded.segments(), index.segments());
    assert_eq!(decoded.adler().checksum(), 1);
    assert_eq!(decoded.time().unwrap().timestamp(), 77);
}

fn wrap_fragment(identifier: u32, body: Vec<u8>, out: &mut Vec<u8>) {
    XP3Index::new(identifier, body).write_bytes(out).unwrap();
}

#[test]
fn file_index_missing_fragments_rejected() {
    let mut info_buf: Vec<u8> = Vec::new();
    XP3FileIndexInfo::new(IndexInfoFlag::NotProtected, 0, 0, String::from("n")).write_bytes(
        &mut info_buf,
    );
    let mut segm_buf: Vec<u8> = Vec::new();
    XP3FileIndexSegment::new(IndexSegmentFlag::UnCompressed, 0, 0, 0).write_bytes(&mut segm_buf);
    let mut adlr_buf: Vec<u8> = Vec::new();
    XP3FileIndexAdler::new(0).write_bytes(&mut adlr_buf);

    // Info and Segment-list, but no Adler.
    let mut payload: Vec<u8> = Vec::new();
    wrap_fragment(XP3_INDEX_INFO_IDENTIFIER, info_buf.clone(), &mut payload);
    wrap_fragment(XP3_INDEX_SEGM_IDENTIFIER, segm_buf.clone(), &mut payload);
    let err = XP3FileIndex::from_bytes(payload.len() as u64, &payload).unwrap_err();
    assert_eq!(*err.kind(), XP3ErrorKind::InvalidFileIndex);

    // Segment-list and Adler, but no Info.
    let mut payload: Vec<u8> = Vec::new();
    wrap_fragment(XP3_INDEX_SEGM_IDENTIFIER, segm_buf.clone(), &mut payload);
    wrap_fragment(XP3_INDEX_ADLR_IDENTIFIER, adlr_buf.clone(), &mut payload);
    let err = XP3FileIndex::from_bytes(payload.len() as u64, &payload).unwrap_err();
    assert_eq!(*err.kind(), XP3ErrorKind::InvalidFileIndex);

    // Info and Adler, but no Segment-list.
    let mut payload: Vec<u8> = Vec::new();
    wrap_fragment(XP3_INDEX_INFO_IDENTIFIER, info_buf.clone(), &mut payload);
    wrap_fragment(XP3_INDEX_ADLR_IDENTIFIER, adlr_buf.clone(), &mut payload);
    let err = XP3FileIndex::from_bytes(payload.len() as u64, &payload).unwrap_err();
    assert_eq!(*err.kind(), XP3ErrorKind::InvalidFileIndex);
}

#[test]
fn file_index_duplicate_info_rejected() {
    let mut info_buf: Vec<u8> = Vec::new();
    XP3FileIndexInfo::new(IndexInfoFlag::NotProtected, 0, 0, String::from("n")).write_bytes(
        &mut info_buf,
    );
    let mut payload: Vec<u8> = Vec::new();
    wrap_fragment(XP3_INDEX_INFO_IDENTIFIER, info_buf.clone(), &mut payload);
    wrap_fragment(XP3_INDEX_INFO_IDENTIFIER, info_buf, &mut payload);
    let err = XP3FileIndex::from_bytes(payload.len() as u64, &payload).unwrap_err();
    assert_eq!(*err.kind(), XP3ErrorKind::InvalidFileIndex);
}

#[test]
fn file_index_misaligned_segment_list_rejected() {
    let mut info_buf: Vec<u8> = Vec::new();
    XP3FileIndexInfo::new(IndexInfoFlag::NotProtected, 0, 0, String::from("n")).write_bytes(
        &mut info_buf,
    );
    let mut adlr_buf: Vec<u8> = Vec::new();
    XP3FileIndexAdler::new(0).write_bytes(&mut adlr_buf);
    let mut payload: Vec<u8> = Vec::new();
    wrap_fragment(XP3_INDEX_INFO_IDENTIFIER, info_buf, &mut payload);
    wrap_fragment(XP3_INDEX_ADLR_IDENTIFIER, adlr_buf, &mut payload);
    wrap_fragment(XP3_INDEX_SEGM_IDENTIFIER, vec![0; 27], &mut payload);
    let err = XP3FileIndex::from_bytes(payload.len() as u64, &payload).unwrap_err();
    assert_eq!(*err.kind(), XP3ErrorKind::InvalidFileIndex);
}

#[test]
fn file_index_skips_unknown_fragment() {
    let index = sample_file_index("a.txt");
    let mut payload: Vec<u8> = Vec::new();
    wrap_fragment(0x6b6e7562, vec![1, 2, 3], &mut payload);
    index.write_bytes(&mut payload).unwrap();
    let (_, decoded) = XP3FileIndex::from_bytes(payload.len() as u64, &payload).unwrap();
    assert_eq!(decoded.info().name(), "a.txt");
}

#[test]
fn file_index_keeps_time_optional() {
    let index = XP3FileIndex::new(
        XP3FileIndexInfo::new(IndexInfoFlag::Protected, 0, 0, String::from("p")),
        vec![],
        XP3FileIndexAdler::new(0),
        None,
    );
    let mut payload: Vec<u8> = Vec::new();
    index.write_bytes(&mut payload).unwrap();
    let (_, decoded) = XP3FileIndex::from_bytes(payload.len() as u64, &payload).unwrap();
    assert!(decoded.time().is_none());
    assert!(matches!(decoded.info().flag(), IndexInfoFlag::Protected));
    assert!(decoded.segments().is_empty());
}

#[test]
fn index_set_selector_rejected() {
    let data = [2u8, 0, 0, 0, 0, 0, 0, 0, 0];
    let err = XP3IndexSet::from_bytes(&data, 0).unwrap_err();
    assert_eq!(*err.kind(), XP3ErrorKind::InvalidFileIndexHeader);
}

#[test]
fn index_set_round_trip_uncompressed() {
    let set = XP3IndexSet::new(
        XP3IndexCompression::UnCompressed,
        vec![XP3Index::new(0x6b6e7562, vec![1, 2, 3])],
        vec![sample_file_index("a.txt"), sample_file_index("b.txt")],
    );
    let mut out: Vec<u8> = Vec::new();
    let written = set.write_bytes(&mut out).unwrap();
    assert_eq!(written as usize, out.len());
    let (consumed, decoded) = XP3IndexSet::from_bytes(&out, 0).unwrap();
    assert_eq!(consumed as usize, out.len());
    assert!(matches!(decoded.compression(), XP3IndexCompression::UnCompressed));
    assert_eq!(decoded.extra().len(), 1);
    assert_eq!(decoded.extra()[0].identifier(), 0x6b6e7562);
    assert_eq!(decoded.extra()[0].data(), &vec![1, 2, 3]);
    assert_eq!(decoded.file_map().len(), 2);
    assert_eq!(decoded.get(&String::from("a.txt")).unwrap().info().name(), "a.txt");
    assert_eq!(decoded.get(&String::from("b.txt")).unwrap().info().name(), "b.txt");
    assert!(decoded.get(&String::from("c.txt")).is_none());
}

#[test]
fn unknown_record_survives_two_cycles() {
    let set = XP3IndexSet::new(
        XP3IndexCompression::UnCompressed,
        vec![XP3Index::new(0x31303030, vec![42, 43])],
        vec![sample_file_index("a.txt")],
    );
    let mut first: Vec<u8> = Vec::new();
    set.write_bytes(&mut first).unwrap();
    let (_, decoded) = XP3IndexSet::from_bytes(&first, 0).unwrap();
    assert_eq!(decoded.extra().len(), 1);
    let mut second: Vec<u8> = Vec::new();
    decoded.write_bytes(&mut second).unwrap();
    let (_, again) = XP3IndexSet::from_bytes(&second, 0).unwrap();
    assert_eq!(again.extra().len(), 1);
    assert_eq!(again.extra()[0].identifier(), 0x31303030);
    assert_eq!(again.extra()[0].data(), &vec![42, 43]);
    assert_eq!(again.file_map().len(), 1);
    assert_eq!(first, second);
}

#[test]
fn index_set_compressed_empty_round_trip() {
    let set = XP3IndexSet::new(XP3IndexCompression::Compressed, Vec::new(), Vec::new());
    let mut out: Vec<u8> = Vec::new();
    set.write_bytes(&mut out).unwrap();
    // The deflated body is framed, not stored raw.
    assert_eq!(out[0], 1);
    let (consumed, decoded) = XP3IndexSet::from_bytes(&out, 0).unwrap();
    assert_eq!(consumed as usize, out.len());
    assert!(matches!(decoded.compression(), XP3IndexCompression::Compressed));
    assert!(decoded.file_map().is_empty());
    assert!(decoded.extra().is_empty());
}

#[test]
fn index_set_round_trip_compressed_with_files() {
    let set = XP3IndexSet::new(
        XP3IndexCompression::Compressed,
        Vec::new(),
        vec![sample_file_index("a.txt")],
    );
    let mut out: Vec<u8> = Vec::new();
    set.write_bytes(&mut out).unwrap();
    let (_, decoded) = XP3IndexSet::from_bytes(&out, 0).unwrap();
    assert_eq!(decoded.file_map().len(), 1);
    assert_eq!(decoded.get(&String::from("a.txt")).unwrap().info().name(), "a.txt");
}

#[test]
fn index_set_duplicate_names_last_wins() {
    let mut older = sample_file_index("a.txt");
    older.info.file_size = 1;
    let mut newer = sample_file_index("a.txt");
    newer.info.file_size = 2;
    // Two File records of the same name in one body: the later one wins.
    let mut body: Vec<u8> = Vec::new();
    let mut buf: Vec<u8> = Vec::new();
    older.write_bytes(&mut buf).unwrap();
    wrap_fragment(xp3::XP3_INDEX_FILE_IDENTIFIER, buf, &mut body);
    let mut buf: Vec<u8> = Vec::new();
    newer.write_bytes(&mut buf).unwrap();
    wrap_fragment(xp3::XP3_INDEX_FILE_IDENTIFIER, buf, &mut body);
    let mut out: Vec<u8> = vec![0];
    out.extend_from_slice(&(body.len() as u64).to_le_bytes());
    out.extend_from_slice(&body);
    let (_, decoded) = XP3IndexSet::from_bytes(&out, 0).unwrap();
    assert_eq!(decoded.file_map().len(), 1);
    assert_eq!(decoded.get(&String::from("a.txt")).unwrap().info().file_size(), 2);
}

#[test]
fn compression_selector_codec() {
    assert_eq!(XP3IndexCompression::UnCompressed.value(), 0);
    assert_eq!(XP3IndexCompression::Compressed.value(), 1);
    assert!(matches!(
        XP3IndexCompression::try_from(0).unwrap(),
        XP3IndexCompression::UnCompressed
    ));
    assert!(matches!(
        XP3IndexCompression::try_from(1).unwrap(),
        XP3IndexCompression::Compressed
    ));
    let err = XP3IndexCompression::try_from(7).unwrap_err();
    assert_eq!(*err.kind(), XP3ErrorKind::InvalidFileIndexHeader);
}

#[test]
fn time_fragment_identifier_constant() {
    // The sub-record identifiers spell their ASCII tags.
    assert_eq!(XP3_INDEX_TIME_IDENTIFIER.to_le_bytes(), *b"time");
    assert_eq!(XP3_INDEX_INFO_IDENTIFIER.to_le_bytes(), *b"info");
    assert_eq!(XP3_INDEX_SEGM_IDENTIFIER.to_le_bytes(), *b"segm");
    assert_eq!(XP3_INDEX_ADLR_IDENTIFIER.to_le_bytes(), *b"adlr");
    assert_eq!(xp3::XP3_INDEX_FILE_IDENTIFIER.to_le_bytes(), *b"File");
}

#[test]
fn over_long_name_is_truncated_on_encode() {
    // The two-byte length prefix counts UTF-16 code units: an encoded name
    // longer than the stored limit silently loses its tail.
    let long = "a".repeat(40000);
    let info = XP3FileIndexInfo::new(IndexInfoFlag::NotProtected, 0, 0, long);
    let mut out: Vec<u8> = Vec::new();
    let written = info.write_bytes(&mut out);
    assert_eq!(written, 22 + 2 * 32767);
    let (_, decoded) = XP3FileIndexInfo::from_bytes(&out).unwrap();
    assert_eq!(decoded.name().len(), 32767);
    assert!(decoded.name().chars().all(|c| c == 'a'));
}

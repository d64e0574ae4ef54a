use rpm_header::data::IndexData;
use rpm_header::entry::IndexEntry;
use rpm_header::error::RpmError;
use rpm_header::header::Header;
use rpm_header::index_header::IndexHeader;
use rpm_header::tag::{IndexSignatureTag, IndexTag};

#[test]
fn signature_header_build() {
    let size: i32 = 209_348;
    let md5sum: &[u8] = &[22u8; 16];
    let sha1: String = "5A884F0CB41EC3DA6D6E7FC2F6AB9DECA8826E8D".to_owned();
    let rsa_spanning_header: &[u8] = b"111222333444";
    let rsa_spanning_header_and_archive: &[u8] = b"7777888899990000";

    let truth = {
        let offset = 0;
        let entries = vec![
            IndexEntry::new(
                IndexSignatureTag::RPMSIGTAG_SIZE,
                offset,
                IndexData::Int32(vec![size]),
            ),
            IndexEntry::new(
                IndexSignatureTag::RPMSIGTAG_MD5,
                offset,
                IndexData::Bin(md5sum.to_vec()),
            ),
            IndexEntry::new(
                IndexSignatureTag::RPMSIGTAG_SHA1,
                offset,
                IndexData::StringTag(sha1.clone()),
            ),
            IndexEntry::new(
                IndexSignatureTag::RPMSIGTAG_RSA,
                offset,
                IndexData::Bin(rsa_spanning_header.to_vec()),
            ),
            IndexEntry::new(
                IndexSignatureTag::RPMSIGTAG_PGP,
                offset,
                IndexData::Bin(rsa_spanning_header_and_archive.to_vec()),
            ),
        ];
        Header::<IndexSignatureTag>::from_entries(entries, IndexSignatureTag::HEADER_SIGNATURES)
    };

    let built = Header::<IndexSignatureTag>::new_signature_header(
        size,
        md5sum,
        sha1,
        rsa_spanning_header,
        rsa_spanning_header_and_archive,
    );

    assert_eq!(built, truth);
}

fn sample_main_header(entries: Vec<IndexEntry<IndexTag>>) -> Header<IndexTag> {
    Header::from_entries(entries, IndexTag::HEADER_IMMUTABLE)
}

#[test]
fn bad_magic_is_rejected() {
    let mut buf: Vec<u8> = vec![0u8; 16];
    buf[3] = 1;
    let r = IndexHeader::parse(&buf);
    match r {
        Err(RpmError::InvalidMagic { expected, actual, complete_input }) => {
            assert_eq!(expected, 0x8e);
            assert_eq!(actual, 0x00);
            assert_eq!(complete_input, buf);
        }
        other => panic!("expected InvalidMagic, got {:?}", other),
    }
}

#[test]
fn second_magic_byte_is_checked() {
    let mut buf: Vec<u8> = vec![0u8; 16];
    buf[0] = 0x8e;
    buf[1] = 0x00;
    match IndexHeader::parse(&buf) {
        Err(RpmError::InvalidMagic { expected, actual, .. }) => {
            assert_eq!(expected, 0xad);
            assert_eq!(actual, 0x00);
        }
        other => panic!("expected InvalidMagic, got {:?}", other),
    }
}

#[test]
fn unsupported_version_is_rejected() {
    let mut buf: Vec<u8> = vec![0u8; 16];
    buf[0] = 0x8e;
    buf[1] = 0xad;
    buf[2] = 0xe8;
    buf[3] = 2;
    match IndexHeader::parse(&buf) {
        Err(RpmError::UnsupportedHeaderVersion(v)) => assert_eq!(v, 2),
        other => panic!("expected UnsupportedHeaderVersion, got {:?}", other),
    }
}

#[test]
fn index_header_writes_sixteen_bytes() {
    let ih = IndexHeader::new(2, 0x0102_0304);
    let mut out: Vec<u8> = Vec::new();
    ih.write(&mut out);
    assert_eq!(
        out,
        vec![0x8e, 0xad, 0xe8, 1, 0, 0, 0, 0, 0, 0, 0, 2, 0x01, 0x02, 0x03, 0x04]
    );
}

#[test]
fn entry_record_is_sixteen_bytes() {
    let e = IndexEntry::new(
        IndexTag::RPMTAG_NAME,
        -32,
        IndexData::Int32(vec![7]),
    );
    let mut out: Vec<u8> = Vec::new();
    e.write_index(&mut out);
    assert_eq!(out.len(), 16);
    // tag 1000, type 4, offset -32, count 1, all big-endian
    assert_eq!(
        out,
        vec![
            0x00, 0x00, 0x03, 0xe8, 0x00, 0x00, 0x00, 0x04, 0xff, 0xff, 0xff, 0xe0, 0x00, 0x00,
            0x00, 0x01
        ]
    );
}

#[test]
fn alignment_of_int32_after_int8() {
    // An Int8 item then an Int32 item: three pad bytes, second offset 4.
    let h = sample_main_header(vec![
        IndexEntry::new(IndexTag::RPMTAG_EPOCH, 0, IndexData::Int8(vec![1])),
        IndexEntry::new(
            IndexTag::RPMTAG_DIRINDEXES,
            0,
            IndexData::Int32(vec![0x11223344]),
        ),
    ]);
    assert_eq!(
        &h.store[0..8],
        &[0x01, 0x00, 0x00, 0x00, 0x11, 0x22, 0x33, 0x44]
    );
    // entries[0] is the region sentinel
    assert_eq!(h.index_entries[1].offset, 0);
    assert_eq!(h.index_entries[2].offset, 4);
}

#[test]
fn alignment_of_int64_after_int8() {
    let h = sample_main_header(vec![
        IndexEntry::new(IndexTag::RPMTAG_EPOCH, 0, IndexData::Int8(vec![1])),
        IndexEntry::new(IndexTag::RPMTAG_INSTALLTIME, 0, IndexData::Int64(vec![3])),
    ]);
    assert_eq!(h.index_entries[2].offset, 8);
    assert_eq!(&h.store[0..8], &[1, 0, 0, 0, 0, 0, 0, 0]);
    assert_eq!(&h.store[8..16], &[0, 0, 0, 0, 0, 0, 0, 3]);
}

#[test]
fn alignment_of_int32_after_string() {
    // "ab" plus NUL is three bytes; the Int32 is padded to offset 4.
    let h = sample_main_header(vec![
        IndexEntry::new(
            IndexTag::RPMTAG_NAME,
            0,
            IndexData::StringTag("ab".to_owned()),
        ),
        IndexEntry::new(IndexTag::RPMTAG_EPOCH, 0, IndexData::Int32(vec![5])),
    ]);
    assert_eq!(h.index_entries[2].offset, 4);
    assert_eq!(&h.store[0..8], &[b'a', b'b', 0, 0, 0, 0, 0, 5]);
}

#[test]
fn synthesized_counts_match() {
    let h = sample_main_header(vec![IndexEntry::new(
        IndexTag::RPMTAG_EPOCH,
        0,
        IndexData::Int32(vec![1]),
    )]);
    assert_eq!(h.index_header.num_entries as usize, h.index_entries.len());
    assert_eq!(h.index_header.header_size as usize, h.store.len());
}

#[test]
fn zero_entries_still_carry_the_sentinel() {
    let h = sample_main_header(Vec::new());
    assert_eq!(h.index_entries.len(), 1);
    assert_eq!(h.index_header.num_entries, 1);
    assert_eq!(h.index_header.header_size, 16);
    assert_eq!(h.store.len(), 16);
}

#[test]
fn region_sentinel_points_back_over_the_directory() {
    let h = sample_main_header(vec![
        IndexEntry::new(IndexTag::RPMTAG_EPOCH, 0, IndexData::Int32(vec![1])),
        IndexEntry::new(
            IndexTag::RPMTAG_NAME,
            0,
            IndexData::StringTag("pkg".to_owned()),
        ),
    ]);
    let payload = match &h.index_entries[0].data {
        IndexData::Bin(p) => p.clone(),
        other => panic!("sentinel should be binary, got {:?}", other),
    };
    assert_eq!(payload.len(), 16);
    let inner = IndexEntry::<IndexTag>::parse(&payload, 0).expect("sentinel record parses");
    assert_eq!(inner.offset, -16 * h.index_entries.len() as i32);
    assert_eq!(inner.num_items, 16);
}

#[test]
fn header_round_trips_byte_exactly() {
    let h = sample_main_header(vec![
        IndexEntry::new(IndexTag::RPMTAG_NAME, 0, IndexData::StringTag("n".to_owned())),
        IndexEntry::new(IndexTag::RPMTAG_EPOCH, 0, IndexData::Int32(vec![42])),
        IndexEntry::new(
            IndexTag::RPMTAG_BASENAMES,
            0,
            IndexData::StringArray(vec!["a".to_owned(), "b".to_owned()]),
        ),
        IndexEntry::new(IndexTag::RPMTAG_FILEDIGESTS, 0, IndexData::Bin(vec![9, 8, 7])),
        IndexEntry::new(IndexTag::RPMTAG_INSTALLTIME, 0, IndexData::Int64(vec![-5])),
    ]);
    let mut bytes: Vec<u8> = Vec::new();
    h.write(&mut bytes);
    let (parsed, consumed) = Header::<IndexTag>::parse(&bytes).expect("round trip parses");
    assert_eq!(consumed, bytes.len());
    assert_eq!(parsed, h);
    let mut again: Vec<u8> = Vec::new();
    parsed.write(&mut again);
    assert_eq!(again, bytes);
}

#[test]
fn parsed_entries_match_the_synthesized_ones() {
    let entries = vec![
        IndexEntry::new(IndexTag::RPMTAG_EPOCH, 0, IndexData::Int32(vec![3])),
        IndexEntry::new(IndexTag::RPMTAG_ARCH, 0, IndexData::StringTag("x86_64".to_owned())),
    ];
    let expected: Vec<(IndexTag, IndexData, u32)> = entries
        .iter()
        .map(|e| (e.tag, clone_data(&e.data), e.num_items))
        .collect();
    let h = sample_main_header(entries);
    let mut bytes: Vec<u8> = Vec::new();
    h.write(&mut bytes);
    let (parsed, _) = Header::<IndexTag>::parse(&bytes).expect("parses");
    assert_eq!(parsed.index_entries.len(), expected.len() + 1);
    for (i, (tag, data, num_items)) in expected.into_iter().enumerate() {
        let e = &parsed.index_entries[i + 1];
        assert_eq!(e.tag, tag);
        assert_eq!(e.data, data);
        assert_eq!(e.num_items, num_items);
    }
}

fn clone_data(d: &IndexData) -> IndexData {
    match d {
        IndexData::Null => IndexData::Null,
        IndexData::Char(v) => IndexData::Char(v.clone()),
        IndexData::Int8(v) => IndexData::Int8(v.clone()),
        IndexData::Int16(v) => IndexData::Int16(v.clone()),
        IndexData::Int32(v) => IndexData::Int32(v.clone()),
        IndexData::Int64(v) => IndexData::Int64(v.clone()),
        IndexData::StringTag(s) => IndexData::StringTag(s.clone()),
        IndexData::Bin(v) => IndexData::Bin(v.clone()),
        IndexData::StringArray(v) => IndexData::StringArray(v.clone()),
        IndexData::I18NString(v) => IndexData::I18NString(v.clone()),
    }
}

#[test]
fn signature_header_round_trips_with_padding() {
    let h = Header::<IndexSignatureTag>::new_signature_header(
        1234,
        &[1u8; 16],
        "0000".to_owned(),
        b"rsa",
        b"pgp",
    );
    let mut bytes: Vec<u8> = Vec::new();
    h.write_signature(&mut bytes);
    assert_eq!(bytes.len() % 8, 0);
    let (parsed, consumed) =
        Header::<IndexSignatureTag>::parse_signature(&bytes).expect("signature parses");
    assert_eq!(consumed, bytes.len());
    assert_eq!(parsed, h);
    let mut again: Vec<u8> = Vec::new();
    parsed.write_signature(&mut again);
    assert_eq!(again, bytes);
}

#[test]
fn file_names_join_directories_and_bases() {
    let h = sample_main_header(vec![
        IndexEntry::new(
            IndexTag::RPMTAG_BASENAMES,
            0,
            IndexData::StringArray(vec!["a".to_owned(), "b".to_owned()]),
        ),
        IndexEntry::new(IndexTag::RPMTAG_DIRINDEXES, 0, IndexData::Int32(vec![0, 1])),
        IndexEntry::new(
            IndexTag::RPMTAG_DIRNAMES,
            0,
            IndexData::StringArray(vec!["/x/".to_owned(), "/y/".to_owned()]),
        ),
    ]);
    let names = h.get_file_names().expect("file names join");
    assert_eq!(names, vec!["/x/a".to_owned(), "/y/b".to_owned()]);
}

#[test]
fn file_names_reject_out_of_range_directory_index() {
    let h = sample_main_header(vec![
        IndexEntry::new(
            IndexTag::RPMTAG_BASENAMES,
            0,
            IndexData::StringArray(vec!["a".to_owned(), "b".to_owned()]),
        ),
        IndexEntry::new(IndexTag::RPMTAG_DIRINDEXES, 0, IndexData::Int32(vec![0, 2])),
        IndexEntry::new(
            IndexTag::RPMTAG_DIRNAMES,
            0,
            IndexData::StringArray(vec!["/x/".to_owned(), "/y/".to_owned()]),
        ),
    ]);
    match h.get_file_names() {
        Err(RpmError::InvalidTagIndex { tag, index, bound }) => {
            assert_eq!(tag, "RPMTAG_DIRINDEXES");
            assert_eq!(index, 2);
            assert_eq!(bound, 2);
        }
        other => panic!("expected InvalidTagIndex, got {:?}", other),
    }
}

#[test]
fn typed_accessor_reports_type_mismatch() {
    let h = sample_main_header(vec![IndexEntry::new(
        IndexTag::RPMTAG_NAME,
        0,
        IndexData::Int32(vec![1]),
    )]);
    match h.get_name() {
        Err(RpmError::UnexpectedTagDataType {
            expected_data_type,
            actual_data_type,
            tag,
        }) => {
            assert_eq!(expected_data_type, "string");
            assert_eq!(actual_data_type, "i32");
            assert_eq!(tag, "RPMTAG_NAME");
        }
        other => panic!("expected UnexpectedTagDataType, got {:?}", other),
    }
}

#[test]
fn missing_tag_is_reported() {
    let h = sample_main_header(Vec::new());
    match h.get_name() {
        Err(RpmError::TagNotFound(tag)) => assert_eq!(tag, "RPMTAG_NAME"),
        other => panic!("expected TagNotFound, got {:?}", other),
    }
}

#[test]
fn typed_accessors_return_the_stored_values() {
    let h = sample_main_header(vec![
        IndexEntry::new(IndexTag::RPMTAG_NAME, 0, IndexData::StringTag("pkg".to_owned())),
        IndexEntry::new(IndexTag::RPMTAG_VERSION, 0, IndexData::StringTag("1.2".to_owned())),
        IndexEntry::new(IndexTag::RPMTAG_RELEASE, 0, IndexData::StringTag("3".to_owned())),
        IndexEntry::new(IndexTag::RPMTAG_ARCH, 0, IndexData::StringTag("noarch".to_owned())),
        IndexEntry::new(IndexTag::RPMTAG_EPOCH, 0, IndexData::Int32(vec![2])),
        IndexEntry::new(IndexTag::RPMTAG_INSTALLTIME, 0, IndexData::Int64(vec![77])),
        IndexEntry::new(
            IndexTag::RPMTAG_PAYLOADFORMAT,
            0,
            IndexData::StringTag("cpio".to_owned()),
        ),
        IndexEntry::new(
            IndexTag::RPMTAG_PAYLOADCOMPRESSOR,
            0,
            IndexData::StringTag("gzip".to_owned()),
        ),
        IndexEntry::new(
            IndexTag::RPMTAG_FILEDIGESTS,
            0,
            IndexData::StringArray(vec!["d1".to_owned()]),
        ),
    ]);
    assert_eq!(h.get_name().unwrap(), "pkg");
    assert_eq!(h.get_version().unwrap(), "1.2");
    assert_eq!(h.get_release().unwrap(), "3");
    assert_eq!(h.get_arch().unwrap(), "noarch");
    assert_eq!(h.get_epoch().unwrap(), 2);
    assert_eq!(h.get_install_time().unwrap(), 77);
    assert_eq!(h.get_payload_format().unwrap(), "cpio");
    assert_eq!(h.get_payload_compressor().unwrap(), "gzip");
    assert_eq!(h.get_file_checksums().unwrap(), &["d1".to_owned()]);
}

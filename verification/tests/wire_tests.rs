use rpm_header::data::IndexData;
use rpm_header::entry::IndexEntry;
use rpm_header::error::RpmError;
use rpm_header::header::Header;
use rpm_header::tag::IndexTag;

/// A raw header image: preamble, one directory record, and a store.
fn raw_header(tag: u32, type_code: u32, offset: i32, count: u32, store: &[u8]) -> Vec<u8> {
    let mut b: Vec<u8> = vec![0x8e, 0xad, 0xe8, 1, 0, 0, 0, 0];
    b.extend_from_slice(&1u32.to_be_bytes());
    b.extend_from_slice(&(store.len() as u32).to_be_bytes());
    b.extend_from_slice(&tag.to_be_bytes());
    b.extend_from_slice(&type_code.to_be_bytes());
    b.extend_from_slice(&offset.to_be_bytes());
    b.extend_from_slice(&count.to_be_bytes());
    b.extend_from_slice(store);
    b
}

#[test]
fn short_input_is_rejected() {
    let b: Vec<u8> = vec![0x8e, 0xad];
    match Header::<IndexTag>::parse(&b) {
        Err(RpmError::ShortInput) => {}
        other => panic!("expected ShortInput, got {:?}", other),
    }
}

#[test]
fn truncated_store_is_rejected() {
    // The preamble promises one entry and a 4-byte store but nothing follows.
    let mut b: Vec<u8> = vec![0x8e, 0xad, 0xe8, 1, 0, 0, 0, 0];
    b.extend_from_slice(&1u32.to_be_bytes());
    b.extend_from_slice(&4u32.to_be_bytes());
    match Header::<IndexTag>::parse(&b) {
        Err(RpmError::ShortInput) => {}
        other => panic!("expected ShortInput, got {:?}", other),
    }
}

#[test]
fn unknown_tag_number_is_rejected() {
    let b = raw_header(9999, 4, 0, 0, &[]);
    match Header::<IndexTag>::parse(&b) {
        Err(RpmError::InvalidTag { raw_tag, store_type }) => {
            assert_eq!(raw_tag, 9999);
            assert_eq!(store_type, "IndexTag");
        }
        other => panic!("expected InvalidTag, got {:?}", other),
    }
}

#[test]
fn unknown_type_code_is_rejected() {
    let b = raw_header(1000, 10, 0, 0, &[]);
    match Header::<IndexTag>::parse(&b) {
        Err(RpmError::InvalidTagDataType {
            raw_data_type,
            store_type,
        }) => {
            assert_eq!(raw_data_type, 10);
            assert_eq!(store_type, "IndexTag");
        }
        other => panic!("expected InvalidTagDataType, got {:?}", other),
    }
}

#[test]
fn entry_data_past_the_store_is_rejected() {
    // An Int32 entry with two items but only four store bytes.
    let b = raw_header(1003, 4, 0, 2, &[0, 0, 0, 1]);
    match Header::<IndexTag>::parse(&b) {
        Err(RpmError::ShortInput) => {}
        other => panic!("expected ShortInput, got {:?}", other),
    }
}

#[test]
fn negative_offset_is_rejected() {
    let b = raw_header(1003, 4, -4, 1, &[0, 0, 0, 1]);
    match Header::<IndexTag>::parse(&b) {
        Err(RpmError::ShortInput) => {}
        other => panic!("expected ShortInput, got {:?}", other),
    }
}

#[test]
fn invalid_utf8_decodes_to_replacement_characters() {
    // A name entry whose bytes are not valid UTF-8: the parser decodes
    // lossily instead of failing.
    let b = raw_header(1000, 6, 0, 1, &[0xff, b'a', 0x00]);
    let (h, _) = Header::<IndexTag>::parse(&b).expect("lossy decode succeeds");
    match &h.index_entries[0].data {
        IndexData::StringTag(s) => assert_eq!(s, "\u{FFFD}a"),
        other => panic!("expected a string entry, got {:?}", other),
    }
}

#[test]
fn non_ascii_string_survives_the_round_trip() {
    let h = Header::<IndexTag>::from_entries(
        vec![IndexEntry::new(
            IndexTag::RPMTAG_NAME,
            0,
            IndexData::StringTag("n\u{00e4}m\u{00e9}".to_owned()),
        )],
        IndexTag::HEADER_IMMUTABLE,
    );
    let mut bytes: Vec<u8> = Vec::new();
    h.write(&mut bytes);
    let (parsed, _) = Header::<IndexTag>::parse(&bytes).expect("parses");
    assert_eq!(parsed.get_name().unwrap(), "n\u{00e4}m\u{00e9}");
}

#[test]
fn string_array_parses_each_element() {
    let b = raw_header(1117, 8, 0, 2, b"ab\x00cd\x00");
    let (h, _) = Header::<IndexTag>::parse(&b).expect("parses");
    match &h.index_entries[0].data {
        IndexData::StringArray(v) => {
            assert_eq!(v, &vec!["ab".to_owned(), "cd".to_owned()]);
        }
        other => panic!("expected a string array, got {:?}", other),
    }
}

#[test]
fn numeric_arrays_parse_big_endian() {
    let b = raw_header(1116, 4, 0, 2, &[0xff, 0xff, 0xff, 0xfe, 0x00, 0x00, 0x00, 0x07]);
    let (h, _) = Header::<IndexTag>::parse(&b).expect("parses");
    match &h.index_entries[0].data {
        IndexData::Int32(v) => assert_eq!(v, &vec![-2, 7]),
        other => panic!("expected an i32 array, got {:?}", other),
    }
}

#[test]
fn data_type_codes_round_trip() {
    let samples = vec![
        IndexData::Null,
        IndexData::Char(Vec::new()),
        IndexData::Int8(Vec::new()),
        IndexData::Int16(Vec::new()),
        IndexData::Int32(Vec::new()),
        IndexData::Int64(Vec::new()),
        IndexData::StringTag(String::new()),
        IndexData::Bin(Vec::new()),
        IndexData::StringArray(Vec::new()),
        IndexData::I18NString(Vec::new()),
    ];
    for (code, d) in samples.iter().enumerate() {
        assert_eq!(d.to_u32(), code as u32);
        assert_eq!(&IndexData::from_u32(code as u32).unwrap(), d);
    }
    assert!(IndexData::from_u32(10).is_none());
}

#[test]
fn num_items_counts_logical_items() {
    assert_eq!(IndexData::Null.num_items(), 0);
    assert_eq!(IndexData::StringTag("xyz".to_owned()).num_items(), 1);
    assert_eq!(IndexData::Bin(vec![1, 2, 3]).num_items(), 3);
    assert_eq!(IndexData::Int16(vec![1, 2]).num_items(), 2);
    assert_eq!(
        IndexData::StringArray(vec!["a".to_owned(), "b".to_owned()]).num_items(),
        2
    );
}

#[test]
fn data_views_expose_their_contents() {
    let s = IndexData::StringTag("hi".to_owned());
    assert_eq!(s.as_str(), Some("hi"));
    assert!(s.as_i32().is_none());

    let i = IndexData::Int32(vec![4, 5]);
    assert_eq!(i.as_i32(), Some(4));
    assert_eq!(i.as_i32_array(), Some(vec![4, 5]));
    assert!(IndexData::Int32(Vec::new()).as_i32().is_none());

    let l = IndexData::Int64(vec![-9]);
    assert_eq!(l.as_i64(), Some(-9));
    assert!(IndexData::Int64(Vec::new()).as_i64().is_none());

    let b = IndexData::Bin(vec![1, 2]);
    assert_eq!(b.as_binary(), Some(&[1u8, 2u8][..]));

    let a = IndexData::StringArray(vec!["q".to_owned()]);
    assert_eq!(a.as_string_array(), Some(&["q".to_owned()][..]));
    let n = IndexData::I18NString(vec!["r".to_owned()]);
    assert_eq!(n.as_string_array(), Some(&["r".to_owned()][..]));
    assert!(IndexData::Null.as_string_array().is_none());
}

#[test]
fn entry_bytes_decode_back_from_the_store() {
    let h = Header::<IndexTag>::from_entries(
        vec![
            IndexEntry::new(IndexTag::RPMTAG_EPOCH, 0, IndexData::Int8(vec![1])),
            IndexEntry::new(IndexTag::RPMTAG_DIRINDEXES, 0, IndexData::Int32(vec![6, -7])),
            IndexEntry::new(
                IndexTag::RPMTAG_NAME,
                0,
                IndexData::StringTag("pkg".to_owned()),
            ),
        ],
        IndexTag::HEADER_IMMUTABLE,
    );
    for e in &h.index_entries {
        let again = e
            .data
            .fill_from_store(&h.store, e.offset, e.num_items)
            .expect("entry data re-reads from the store");
        assert_eq!(again, e.data);
    }
}

//! The 16-byte directory records that describe where each data value lives
//! in the store.

use vstd::prelude::*;
use crate::bytes::{
    dec_i32, dec_u32, enc_i32, enc_u32, lemma_dec_enc_u32, lemma_enc_dec_u32, read_i32_at,
    read_u32_at, push_i32, push_u32,
};
use crate::data::{empty_of, spec_item_count, type_code, IndexData, IndexDataView};
use crate::error::{RpmError, RpmErrorView};
use crate::tag::Tag;

verus! {

/// A single entry within a header: the directory record's fields plus the
/// resolved data.
#[derive(Debug, PartialEq)]
pub struct IndexEntry<T> {
    pub tag: T,
    pub data: IndexData,
    pub offset: i32,
    pub num_items: u32,
}

/// The mathematical shape of an [`IndexEntry`].
#[verifier::ext_equal]
pub ghost struct IndexEntryView<T> {
    pub tag: T,
    pub data: IndexDataView,
    pub offset: i32,
    pub num_items: u32,
}

impl<T: Copy> View for IndexEntry<T> {
    type V = IndexEntryView<T>;

    open spec fn view(&self) -> IndexEntryView<T> {
        IndexEntryView { tag: self.tag, data: self.data@, offset: self.offset, num_items: self.num_items }
    }
}

/// The 16 bytes of an entry's directory record: tag number, type code,
/// store offset and item count, all big-endian.
pub open spec fn record_bytes<T: Tag>(e: IndexEntryView<T>) -> Seq<u8> {
    enc_u32(e.tag.spec_to_u32()) + enc_u32(type_code(e.data)) + enc_i32(e.offset) + enc_u32(
        e.num_items,
    )
}

pub proof fn lemma_record_bytes_len<T: Tag>(e: IndexEntryView<T>)
    ensures
        record_bytes(e).len() == 16,
{
}

/// The skeleton entry a 16-byte directory record describes, or the error
/// that rejects it: an unknown tag number, or a type code past the ten
/// known flavors.
pub open spec fn spec_parse_record<T: Tag>(b: Seq<u8>) -> Result<IndexEntryView<T>, RpmErrorView>
    recommends
        b.len() == 16,
{
    let raw_tag = dec_u32(b.subrange(0, 4));
    match T::spec_from_u32(raw_tag) {
        None => Err(
            RpmErrorView::InvalidTag { raw_tag, store_type: T::spec_enum_name() },
        ),
        Some(tag) => {
            let code = dec_u32(b.subrange(4, 8));
            if code > 9 {
                Err(
                    RpmErrorView::InvalidTagDataType {
                        raw_data_type: code,
                        store_type: T::spec_enum_name(),
                    },
                )
            } else {
                Ok(
                    IndexEntryView {
                        tag,
                        data: empty_of(code),
                        offset: dec_i32(b.subrange(8, 12)),
                        num_items: dec_u32(b.subrange(12, 16)),
                    },
                )
            }
        },
    }
}

/// Re-encoding a record that parsed gives back its 16 bytes, and the parsed
/// entry keeps the record's fields.
pub proof fn lemma_record_round_trip<T: Tag>(b: Seq<u8>)
    requires
        b.len() == 16,
        spec_parse_record::<T>(b) is Ok,
    ensures
        record_bytes(spec_parse_record::<T>(b)->Ok_0) =~= b,
{
    let e = spec_parse_record::<T>(b)->Ok_0;
    let raw_tag = dec_u32(b.subrange(0, 4));
    T::lemma_to_from(raw_tag);
    lemma_dec_enc_u32(b.subrange(0, 4));
    lemma_dec_enc_u32(b.subrange(4, 8));
    lemma_dec_enc_u32(b.subrange(8, 12));
    lemma_dec_enc_u32(b.subrange(12, 16));
    assert(type_code(e.data) == dec_u32(b.subrange(4, 8)));
    assert(crate::bytes::as_unsigned32(e.offset) == dec_u32(b.subrange(8, 12)));
}

/// Parsing the record of a well-formed entry gives back its skeleton.
pub proof fn lemma_record_of_entry<T: Tag>(e: IndexEntryView<T>)
    ensures
        spec_parse_record::<T>(record_bytes(e)) == Ok::<IndexEntryView<T>, RpmErrorView>(
            IndexEntryView { data: empty_of(type_code(e.data)), ..e },
        ),
{
    let b = record_bytes(e);
    lemma_enc_dec_u32(e.tag.spec_to_u32());
    lemma_enc_dec_u32(type_code(e.data));
    lemma_enc_dec_u32(crate::bytes::as_unsigned32(e.offset));
    lemma_enc_dec_u32(e.num_items);
    assert(b.subrange(0, 4) =~= enc_u32(e.tag.spec_to_u32()));
    assert(b.subrange(4, 8) =~= enc_u32(type_code(e.data)));
    assert(b.subrange(8, 12) =~= enc_u32(crate::bytes::as_unsigned32(e.offset)));
    assert(b.subrange(12, 16) =~= enc_u32(e.num_items));
    e.tag.lemma_from_to();
    crate::bytes::lemma_signed_unsigned32(e.offset);
    let parsed = spec_parse_record::<T>(b);
    assert(parsed is Ok);
    assert(parsed->Ok_0 =~= IndexEntryView { data: empty_of(type_code(e.data)), ..e });
}

impl<T: Tag> IndexEntry<T> {
    /// Reads the 16-byte directory record at `at`, resolving the tag number
    /// through the tag enumeration. The data is the empty skeleton of its
    /// type; it is materialized later from the store.
    pub fn parse(input: &[u8], at: usize) -> (r: Result<IndexEntry<T>, RpmError>)
        requires
            at + 16 <= input@.len(),
        ensures
            match spec_parse_record::<T>(input@.subrange(at as int, at + 16)) {
                Ok(e) => r matches Ok(x) && x@ == e,
                Err(err) => r matches Err(x) && x@ == err,
            },
    {
        let n = input.len();
        assert(at + 16 <= n);
        let ghost b = input@.subrange(at as int, at + 16);
        proof {
            assert(b.subrange(0, 4) =~= input@.subrange(at as int, at + 4));
            assert(b.subrange(4, 8) =~= input@.subrange(at + 4, at + 8));
            assert(b.subrange(8, 12) =~= input@.subrange(at + 8, at + 12));
            assert(b.subrange(12, 16) =~= input@.subrange(at + 12, at + 16));
        }
        let raw_tag = read_u32_at(input, at);
        let tag = match T::from_u32(raw_tag) {
            Some(t) => t,
            None => {
                return Err(RpmError::InvalidTag { raw_tag, store_type: T::enum_name() });
            },
        };
        let raw_tag_type = read_u32_at(input, at + 4);
        let data = match IndexData::from_u32(raw_tag_type) {
            Some(d) => d,
            None => {
                return Err(
                    RpmError::InvalidTagDataType {
                        raw_data_type: raw_tag_type,
                        store_type: T::enum_name(),
                    },
                );
            },
        };
        let offset = read_i32_at(input, at + 8);
        let num_items = read_u32_at(input, at + 12);
        Ok(IndexEntry { tag, data, offset, num_items })
    }

    /// Writes the 16-byte directory record for this entry.
    pub fn write_index(&self, out: &mut Vec<u8>)
        ensures
            final (out)@ == old(out)@ + record_bytes(self@),
    {
        push_u32(out, self.tag.to_u32());
        push_u32(out, self.data.to_u32());
        push_i32(out, self.offset);
        push_u32(out, self.num_items);
        assert(final (out)@ =~= old(out)@ + record_bytes(self@));
    }

    /// A new entry whose item count is derived from its data.
    pub fn new(tag: T, offset: i32, data: IndexData) -> (r: IndexEntry<T>)
        requires
            spec_item_count(data@) <= u32::MAX,
        ensures
            r@ == (IndexEntryView {
                tag,
                offset,
                data: data@,
                num_items: spec_item_count(data@) as u32,
            }),
    {
        let num_items = data.num_items();
        IndexEntry { tag, offset, num_items, data }
    }
}

} // verus!

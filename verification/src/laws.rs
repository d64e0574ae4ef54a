//! The laws the codec obeys: every encoded data value decodes back out of
//! the store it was appended to, synthesized headers are well formed, and
//! parsing is a two-sided inverse of writing.

use vstd::prelude::*;
use vstd::utf8::{char_is_scalar, char_u32_cast, encode_scalar, encode_utf8, decode_utf8,
    valid_utf8, encode_utf8_valid_utf8, encode_utf8_decode_utf8, is_scalar,
    has_width_1_encoding, has_width_2_encoding, has_width_3_encoding};
use crate::bytes::{
    as_signed8, as_unsigned8, as_unsigned16, as_unsigned64, dec_i16,
    dec_i32, dec_i64, enc_i16, enc_i32, enc_i64, lemma_enc_dec_u16, lemma_enc_dec_u32,
    lemma_enc_dec_u64, lemma_signed_unsigned16, lemma_signed_unsigned32, lemma_signed_unsigned64,
    nul_from, lemma_nul_from_found, zeros,
};
use crate::data::{
    align_of, enc_cstr, enc_cstrs, enc_i16_items, enc_i32_items, enc_i64_items, enc_i8_items,
    encoded, lossy_decode, pad_len, spec_fill, spec_fill_i18n, spec_fill_strs, spec_item_count,
    type_code, IndexDataView,
};
use crate::data::empty_of;
use crate::entry::{lemma_record_bytes_len, lemma_record_of_entry, lemma_record_round_trip,
    record_bytes, spec_parse_record, IndexEntryView};
use crate::error::RpmErrorView;
use crate::header::{lemma_records_bytes_len, lemma_store_after_len_mono, offset_after,
    records_bytes, spec_fill_all, spec_from_entries, spec_header_bytes, spec_parse,
    spec_parse_entries, spec_region_entry, spec_region_record, store_after, HeaderView};
use crate::signature::{sig_pad_len, spec_parse_signature, spec_signature_bytes};
use crate::index_header::{index_header_bytes, spec_parse_index_header};
use crate::bytes::{enc_u32, lemma_dec_enc_u32};
use crate::tag::Tag;

verus! {

// ---------------------------------------------------------------------------
// What an entry must satisfy for its data to survive the store round trip.
// ---------------------------------------------------------------------------

/// True when no character of the string is NUL: a NUL would end the string
/// early when it is read back.
pub open spec fn nul_free(s: Seq<char>) -> bool {
    forall|i: int| 0 <= i < s.len() ==> s[i] != '\0'
}

/// True when every string of the list is NUL-free.
pub open spec fn all_nul_free(ss: Seq<Seq<char>>) -> bool {
    forall|k: int| 0 <= k < ss.len() ==> nul_free(#[trigger] ss[k])
}

/// True when an entry's data reads back intact from a store it was encoded
/// into: the item count matches the data, strings carry no embedded NUL,
/// and an i18n entry holds at most one string (the reader leaves every
/// element after the first NUL empty).
pub open spec fn encodable<T: Tag>(e: IndexEntryView<T>) -> bool {
    &&& spec_item_count(e.data) <= u32::MAX
    &&& e.num_items == spec_item_count(e.data)
    &&& match e.data {
        IndexDataView::StringTag(s) => nul_free(s),
        IndexDataView::StringArray(ss) => all_nul_free(ss),
        IndexDataView::I18NString(ss) => all_nul_free(ss) && ss.len() <= 1,
        _ => true,
    }
}

// ---------------------------------------------------------------------------
// Element encodings: lengths and per-item extraction.
// ---------------------------------------------------------------------------

pub proof fn lemma_enc_i16_items_len(v: Seq<i16>)
    ensures
        enc_i16_items(v).len() == 2 * v.len(),
    decreases v.len(),
{
    if v.len() > 0 {
        lemma_enc_i16_items_len(v.drop_last());
    }
}

pub proof fn lemma_enc_i32_items_len(v: Seq<i32>)
    ensures
        enc_i32_items(v).len() == 4 * v.len(),
    decreases v.len(),
{
    if v.len() > 0 {
        lemma_enc_i32_items_len(v.drop_last());
    }
}

pub proof fn lemma_enc_i64_items_len(v: Seq<i64>)
    ensures
        enc_i64_items(v).len() == 8 * v.len(),
    decreases v.len(),
{
    if v.len() > 0 {
        lemma_enc_i64_items_len(v.drop_last());
    }
}

proof fn lemma_enc_i16_items_index(v: Seq<i16>, i: int)
    requires
        0 <= i < v.len(),
    ensures
        enc_i16_items(v).subrange(2 * i, 2 * i + 2) =~= enc_i16(v[i]),
    decreases v.len(),
{
    lemma_enc_i16_items_len(v);
    lemma_enc_i16_items_len(v.drop_last());
    if i == v.len() - 1 {
        assert(enc_i16(v.last()).len() == 2);
    } else {
        lemma_enc_i16_items_index(v.drop_last(), i);
        assert(enc_i16_items(v).subrange(2 * i, 2 * i + 2) =~= enc_i16_items(
            v.drop_last(),
        ).subrange(2 * i, 2 * i + 2));
    }
}

proof fn lemma_enc_i32_items_index(v: Seq<i32>, i: int)
    requires
        0 <= i < v.len(),
    ensures
        enc_i32_items(v).subrange(4 * i, 4 * i + 4) =~= enc_i32(v[i]),
    decreases v.len(),
{
    lemma_enc_i32_items_len(v);
    lemma_enc_i32_items_len(v.drop_last());
    if i == v.len() - 1 {
        assert(enc_i32(v.last()).len() == 4);
    } else {
        lemma_enc_i32_items_index(v.drop_last(), i);
        assert(enc_i32_items(v).subrange(4 * i, 4 * i + 4) =~= enc_i32_items(
            v.drop_last(),
        ).subrange(4 * i, 4 * i + 4));
    }
}

proof fn lemma_enc_i64_items_index(v: Seq<i64>, i: int)
    requires
        0 <= i < v.len(),
    ensures
        enc_i64_items(v).subrange(8 * i, 8 * i + 8) =~= enc_i64(v[i]),
    decreases v.len(),
{
    lemma_enc_i64_items_len(v);
    lemma_enc_i64_items_len(v.drop_last());
    if i == v.len() - 1 {
        assert(enc_i64(v.last()).len() == 8);
    } else {
        lemma_enc_i64_items_index(v.drop_last(), i);
        assert(enc_i64_items(v).subrange(8 * i, 8 * i + 8) =~= enc_i64_items(
            v.drop_last(),
        ).subrange(8 * i, 8 * i + 8));
    }
}

/// The string encodings unfold from the front as well.
proof fn lemma_enc_cstrs_first(ss: Seq<Seq<char>>)
    requires
        ss.len() > 0,
    ensures
        enc_cstrs(ss) =~= enc_cstr(ss[0]) + enc_cstrs(ss.drop_first()),
    decreases ss.len(),
{
    if ss.len() == 1 {
        assert(enc_cstrs(ss.drop_last()) =~= Seq::<u8>::empty());
        assert(enc_cstrs(ss.drop_first()) =~= Seq::<u8>::empty());
    } else {
        lemma_enc_cstrs_first(ss.drop_last());
        assert(ss.drop_last()[0] == ss[0]);
        assert(ss.drop_last().drop_first() =~= ss.drop_first().drop_last());
        assert(ss.drop_first().last() == ss.last());
        assert(enc_cstrs(ss) =~= (enc_cstr(ss[0]) + enc_cstrs(ss.drop_last().drop_first()))
            + enc_cstr(ss.last()));
    }
}

// ---------------------------------------------------------------------------
// NUL-freedom of UTF-8 encodings.
// ---------------------------------------------------------------------------

proof fn lemma_encode_scalar_nonzero(u: u32)
    requires
        is_scalar(u),
        u != 0,
    ensures
        forall|j: int| 0 <= j < encode_scalar(u).len() ==> encode_scalar(u)[j] != 0,
{
    if has_width_1_encoding(u) {
        assert((u & 0x7F) as u8 != 0) by (bit_vector)
            requires
                u != 0,
                u <= 0x7F,
        ;
    } else {
        assert((0xC0u8 | ((u >> 6) & 0x1F) as u8) != 0) by (bit_vector);
        assert((0xE0u8 | ((u >> 12) & 0x0F) as u8) != 0) by (bit_vector);
        assert((0xF0u8 | ((u >> 18) & 0x7) as u8) != 0) by (bit_vector);
        assert((0x80u8 | (u & 0x3F) as u8) != 0) by (bit_vector);
        assert((0x80u8 | ((u >> 6) & 0x3F) as u8) != 0) by (bit_vector);
        assert((0x80u8 | ((u >> 12) & 0x3F) as u8) != 0) by (bit_vector);
    }
}

/// The UTF-8 encoding of a NUL-free string contains no zero byte.
pub proof fn lemma_encode_nul_free(s: Seq<char>)
    requires
        nul_free(s),
    ensures
        forall|j: int| 0 <= j < encode_utf8(s).len() ==> encode_utf8(s)[j] != 0,
    decreases s.len(),
{
    if s.len() > 0 {
        char_is_scalar(s[0]);
        let u = s[0] as u32;
        char_u32_cast(s[0], u);
        char_u32_cast('\0', 0u32);
        assert(u != 0);
        lemma_encode_scalar_nonzero(u);
        lemma_encode_nul_free(s.drop_first());
        assert forall|j: int| 0 <= j < encode_utf8(s).len() implies encode_utf8(s)[j] != 0 by {
            if j >= encode_scalar(u).len() {
                assert(encode_utf8(s)[j] == encode_utf8(s.drop_first())[j - encode_scalar(
                    u,
                ).len()]);
            }
        }
    }
}

// ---------------------------------------------------------------------------
// Each data flavor decodes back out of a store that carries its encoding.
// ---------------------------------------------------------------------------

proof fn lemma_fill_cstr_at(store: Seq<u8>, offset: int, s: Seq<char>)
    requires
        nul_free(s),
        0 <= offset,
        offset + enc_cstr(s).len() <= store.len(),
        store.subrange(offset, offset + enc_cstr(s).len() as int) == enc_cstr(s),
    ensures
        nul_from(store, offset) == offset + encode_utf8(s).len(),
        nul_from(store, offset) < store.len(),
        lossy_decode(store.subrange(offset, nul_from(store, offset))) == s,
{
    let u = encode_utf8(s);
    let j = offset + u.len();
    lemma_encode_nul_free(s);
    assert forall|k: int| offset <= k < j implies store[k] != 0 by {
        assert(store[k] == enc_cstr(s)[k - offset]);
        assert(enc_cstr(s)[k - offset] == u[k - offset]);
    }
    assert(store[j] == enc_cstr(s)[u.len() as int]);
    assert(store[j] == 0);
    lemma_nul_from_found(store, offset, j);
    assert(store.subrange(offset, j) =~= u);
    encode_utf8_valid_utf8(s);
    encode_utf8_decode_utf8(s);
}

proof fn lemma_fill_strs_at(store: Seq<u8>, offset: int, ss: Seq<Seq<char>>)
    requires
        all_nul_free(ss),
        0 <= offset,
        offset + enc_cstrs(ss).len() <= store.len(),
        store.subrange(offset, offset + enc_cstrs(ss).len() as int) == enc_cstrs(ss),
    ensures
        spec_fill_strs(store, offset, ss.len()) == Some(ss),
    decreases ss.len(),
{
    if ss.len() == 0 {
        assert(spec_fill_strs(store, offset, 0) == Some(Seq::<Seq<char>>::empty()));
        assert(ss =~= Seq::<Seq<char>>::empty());
    } else {
        lemma_enc_cstrs_first(ss);
        let s0 = ss[0];
        let e0 = enc_cstr(s0);
        assert(store.subrange(offset, offset + e0.len() as int) =~= e0);
        lemma_fill_cstr_at(store, offset, s0);
        let j = nul_from(store, offset);
        assert(j == offset + encode_utf8(s0).len());
        let rest = ss.drop_first();
        assert forall|k: int| 0 <= k < enc_cstrs(rest).len() implies store[j + 1 + k]
            == enc_cstrs(rest)[k] by {
            assert(enc_cstrs(ss)[e0.len() + k] == store.subrange(
                offset,
                offset + enc_cstrs(ss).len() as int,
            )[e0.len() + k]);
            assert(enc_cstrs(ss)[e0.len() + k] == (e0 + enc_cstrs(rest))[e0.len() + k]);
        }
        assert(store.subrange(j + 1, j + 1 + enc_cstrs(rest).len() as int) =~= enc_cstrs(rest));
        lemma_fill_strs_at(store, j + 1, rest);
        assert(seq![lossy_decode(store.subrange(offset, j))] + rest =~= ss);
    }
}

proof fn lemma_fill_i18n_at(store: Seq<u8>, offset: int, ss: Seq<Seq<char>>)
    requires
        all_nul_free(ss),
        ss.len() <= 1,
        0 <= offset,
        offset + enc_cstrs(ss).len() <= store.len(),
        store.subrange(offset, offset + enc_cstrs(ss).len() as int) == enc_cstrs(ss),
    ensures
        spec_fill_i18n(store, offset, ss.len()) == ss,
{
    if ss.len() == 0 {
        assert(spec_fill_i18n(store, offset, 0) =~= Seq::<Seq<char>>::empty());
        assert(ss =~= Seq::<Seq<char>>::empty());
    } else {
        lemma_enc_cstrs_first(ss);
        let s0 = ss[0];
        assert(store.subrange(offset, offset + enc_cstr(s0).len() as int) =~= enc_cstr(s0));
        lemma_fill_cstr_at(store, offset, s0);
        let j = nul_from(store, offset);
        assert(spec_fill_i18n(store, j, 0) =~= Seq::<Seq<char>>::empty());
        assert(seq![lossy_decode(store.subrange(offset, j))] + Seq::<Seq<char>>::empty() =~= ss);
    }
}

/// An entry's data, encoded at `offset` inside a store, decodes back to the
/// same value under the type-specific reader.
pub proof fn lemma_fill_encoded<T: Tag>(e: IndexEntryView<T>, store: Seq<u8>)
    requires
        encodable(e),
        0 <= e.offset,
        e.offset + encoded(e.data).len() <= store.len(),
        store.subrange(e.offset as int, e.offset + encoded(e.data).len() as int) == encoded(
            e.data,
        ),
    ensures
        spec_fill(type_code(e.data), store, e.offset as int, e.num_items as nat) == Some(e.data),
{
    let offset = e.offset as int;
    let d = e.data;
    match d {
        IndexDataView::Null => {},
        IndexDataView::Char(v) => {
            assert(store.subrange(offset, offset + v.len() as int) == v);
        },
        IndexDataView::Bin(v) => {
            assert(store.subrange(offset, offset + v.len() as int) == v);
        },
        IndexDataView::Int8(v) => {
            let got = Seq::new(v.len(), |i: int| as_signed8(store[offset + i]));
            assert forall|i: int| 0 <= i < v.len() implies got[i] == v[i] by {
                assert(store[offset + i] == enc_i8_items(v)[i]);
                assert(enc_i8_items(v)[i] == as_unsigned8(v[i]));
            }
            assert(got =~= v);
        },
        IndexDataView::Int16(v) => {
            lemma_enc_i16_items_len(v);
            let got = Seq::new(
                v.len(),
                |i: int| dec_i16(store.subrange(offset + 2 * i, offset + 2 * i + 2)),
            );
            assert forall|i: int| 0 <= i < v.len() implies got[i] == v[i] by {
                lemma_enc_i16_items_index(v, i);
                assert(store.subrange(offset + 2 * i, offset + 2 * i + 2) =~= enc_i16_items(
                    v,
                ).subrange(2 * i, 2 * i + 2));
                lemma_enc_dec_u16(as_unsigned16(v[i]));
                lemma_signed_unsigned16(v[i]);
            }
            assert(got =~= v);
        },
        IndexDataView::Int32(v) => {
            lemma_enc_i32_items_len(v);
            let got = Seq::new(
                v.len(),
                |i: int| dec_i32(store.subrange(offset + 4 * i, offset + 4 * i + 4)),
            );
            assert forall|i: int| 0 <= i < v.len() implies got[i] == v[i] by {
                lemma_enc_i32_items_index(v, i);
                assert(store.subrange(offset + 4 * i, offset + 4 * i + 4) =~= enc_i32_items(
                    v,
                ).subrange(4 * i, 4 * i + 4));
                lemma_enc_dec_u32(crate::bytes::as_unsigned32(v[i]));
                lemma_signed_unsigned32(v[i]);
            }
            assert(got =~= v);
        },
        IndexDataView::Int64(v) => {
            lemma_enc_i64_items_len(v);
            let got = Seq::new(
                v.len(),
                |i: int| dec_i64(store.subrange(offset + 8 * i, offset + 8 * i + 8)),
            );
            assert forall|i: int| 0 <= i < v.len() implies got[i] == v[i] by {
                lemma_enc_i64_items_index(v, i);
                assert(store.subrange(offset + 8 * i, offset + 8 * i + 8) =~= enc_i64_items(
                    v,
                ).subrange(8 * i, 8 * i + 8));
                lemma_enc_dec_u64(as_unsigned64(v[i]));
                lemma_signed_unsigned64(v[i]);
            }
            assert(got =~= v);
        },
        IndexDataView::StringTag(s) => {
            lemma_fill_cstr_at(store, offset, s);
        },
        IndexDataView::StringArray(ss) => {
            lemma_fill_strs_at(store, offset, ss);
        },
        IndexDataView::I18NString(ss) => {
            lemma_fill_i18n_at(store, offset, ss);
        },
    }
}

// ---------------------------------------------------------------------------
// Well-formed headers.
// ---------------------------------------------------------------------------

/// A well-formed entry over a store: its offset stays inside the store and
/// its data is exactly what the type-specific reader extracts there.
pub open spec fn wf_entry<T: Tag>(e: IndexEntryView<T>, store: Seq<u8>) -> bool {
    &&& 0 <= e.offset <= store.len()
    &&& spec_fill(type_code(e.data), store, e.offset as int, e.num_items as nat) == Some(e.data)
}

/// A well-formed header: correct magic and version, counts that match the
/// entry list and the store, and every entry well formed over the store.
pub open spec fn wf_header<T: Tag>(h: HeaderView<T>) -> bool {
    &&& h.index_header.magic.len() == 3
    &&& h.index_header.magic[0] == 0x8e
    &&& h.index_header.magic[1] == 0xad
    &&& h.index_header.version == 1
    &&& h.index_header.num_entries == h.entries.len()
    &&& h.index_header.header_size == h.store.len()
    &&& forall|i: int| 0 <= i < h.entries.len() ==> wf_entry(#[trigger] h.entries[i], h.store)
}

/// The skeleton that a directory record announces for an entry: the same
/// fields with the data not yet materialized.
pub open spec fn skeleton_of<T: Tag>(e: IndexEntryView<T>) -> IndexEntryView<T> {
    IndexEntryView { data: empty_of(type_code(e.data)), ..e }
}

/// The skeletons of a list of entries.
pub open spec fn skeletons<T: Tag>(entries: Seq<IndexEntryView<T>>) -> Seq<IndexEntryView<T>> {
    Seq::new(entries.len(), |i: int| skeleton_of(entries[i]))
}

// ---------------------------------------------------------------------------
// Directory bytes and skeleton parsing.
// ---------------------------------------------------------------------------

proof fn lemma_records_bytes_index<T: Tag>(entries: Seq<IndexEntryView<T>>, i: int)
    requires
        0 <= i < entries.len(),
    ensures
        records_bytes(entries).subrange(16 * i, 16 * i + 16) =~= record_bytes(entries[i]),
    decreases entries.len(),
{
    lemma_records_bytes_len(entries);
    lemma_records_bytes_len(entries.drop_last());
    lemma_record_bytes_len(entries.last());
    if i == entries.len() - 1 {
    } else {
        lemma_records_bytes_index(entries.drop_last(), i);
        assert(records_bytes(entries).subrange(16 * i, 16 * i + 16) =~= records_bytes(
            entries.drop_last(),
        ).subrange(16 * i, 16 * i + 16));
    }
}

proof fn lemma_parse_records<T: Tag>(dir: Seq<u8>, entries: Seq<IndexEntryView<T>>, m: nat)
    requires
        m <= entries.len(),
        16 * m <= dir.len(),
        forall|i: int|
            0 <= i < m ==> dir.subrange(16 * i, 16 * i + 16) == record_bytes(
                #[trigger] entries[i],
            ),
    ensures
        spec_parse_entries::<T>(dir, m) == Ok::<Seq<IndexEntryView<T>>, RpmErrorView>(
            skeletons(entries.take(m as int)),
        ),
    decreases m,
{
    if m == 0 {
        assert(skeletons(entries.take(0)) =~= Seq::<IndexEntryView<T>>::empty());
    } else {
        lemma_parse_records::<T>(dir, entries, (m - 1) as nat);
        lemma_record_of_entry(entries[m - 1]);
        assert(dir.subrange(16 * (m - 1), 16 * m as int) == record_bytes(entries[m - 1]));
        assert(skeletons(entries.take(m as int)) =~= skeletons(entries.take(m - 1)).push(
            skeleton_of(entries[m - 1]),
        ));
    }
}

proof fn lemma_parse_entries_len<T: Tag>(dir: Seq<u8>, m: nat)
    requires
        spec_parse_entries::<T>(dir, m) is Ok,
    ensures
        spec_parse_entries::<T>(dir, m)->Ok_0.len() == m,
    decreases m,
{
    if m > 0 {
        lemma_parse_entries_len::<T>(dir, (m - 1) as nat);
    }
}

proof fn lemma_parse_entries_index<T: Tag>(dir: Seq<u8>, m: nat, i: int)
    requires
        spec_parse_entries::<T>(dir, m) is Ok,
        0 <= i < m,
    ensures
        spec_parse_record::<T>(dir.subrange(16 * i, 16 * i + 16)) == Ok::<
            IndexEntryView<T>,
            RpmErrorView,
        >(spec_parse_entries::<T>(dir, m)->Ok_0[i]),
    decreases m,
{
    lemma_parse_entries_len::<T>(dir, m);
    lemma_parse_entries_len::<T>(dir, (m - 1) as nat);
    if i < m - 1 {
        lemma_parse_entries_index::<T>(dir, (m - 1) as nat, i);
    }
}

/// Re-encoding the records of parsed skeletons gives back the directory.
proof fn lemma_records_of_parse<T: Tag>(dir: Seq<u8>, m: nat)
    requires
        spec_parse_entries::<T>(dir, m) is Ok,
        16 * m <= dir.len(),
    ensures
        records_bytes(spec_parse_entries::<T>(dir, m)->Ok_0) =~= dir.subrange(0, 16 * m as int),
    decreases m,
{
    lemma_parse_entries_len::<T>(dir, m);
    if m == 0 {
    } else {
        lemma_records_of_parse::<T>(dir, (m - 1) as nat);
        lemma_parse_entries_len::<T>(dir, (m - 1) as nat);
        let s = spec_parse_entries::<T>(dir, m)->Ok_0;
        assert(s.drop_last() =~= spec_parse_entries::<T>(dir, (m - 1) as nat)->Ok_0);
        lemma_record_round_trip::<T>(dir.subrange(16 * (m - 1), 16 * m as int));
        assert(records_bytes(s) =~= records_bytes(s.drop_last()) + record_bytes(s.last()));
    }
}

/// Two entry lists with identical record fields have identical directories.
proof fn lemma_records_bytes_congruent<T: Tag>(
    a: Seq<IndexEntryView<T>>,
    b: Seq<IndexEntryView<T>>,
)
    requires
        a.len() == b.len(),
        forall|i: int|
            0 <= i < a.len() ==> {
                &&& (#[trigger] a[i]).tag == b[i].tag
                &&& type_code(a[i].data) == type_code(b[i].data)
                &&& a[i].offset == b[i].offset
                &&& a[i].num_items == b[i].num_items
            },
    ensures
        records_bytes(a) == records_bytes(b),
    decreases a.len(),
{
    if a.len() > 0 {
        lemma_records_bytes_congruent(a.drop_last(), b.drop_last());
        assert(record_bytes(a.last()) == record_bytes(b.last()));
    }
}

// ---------------------------------------------------------------------------
// Materialization against a well-formed store.
// ---------------------------------------------------------------------------

/// The type-specific reader yields the flavor its code announces.
proof fn lemma_fill_code<T: Tag>(code: u32, store: Seq<u8>, offset: int, count: nat)
    requires
        code <= 9,
        spec_fill(code, store, offset, count) is Some,
    ensures
        type_code(spec_fill(code, store, offset, count)->Some_0) == code,
        0 <= offset <= store.len(),
{
}

/// Filling the skeletons of well-formed entries gives the entries back.
proof fn lemma_fill_all_of_wf<T: Tag>(entries: Seq<IndexEntryView<T>>, store: Seq<u8>, m: int)
    requires
        0 <= m <= entries.len(),
        forall|i: int| 0 <= i < m ==> wf_entry(#[trigger] entries[i], store),
    ensures
        spec_fill_all(skeletons(entries.take(m)), store) == Some(entries.take(m)),
    decreases m,
{
    if m == 0 {
        assert(skeletons(entries.take(0)) =~= Seq::<IndexEntryView<T>>::empty());
        assert(entries.take(0) =~= Seq::<IndexEntryView<T>>::empty());
    } else {
        lemma_fill_all_of_wf(entries, store, m - 1);
        let sk = skeletons(entries.take(m));
        assert(sk.drop_last() =~= skeletons(entries.take(m - 1)));
        assert(sk.last() == skeleton_of(entries[m - 1]));
        let e = entries[m - 1];
        assert(wf_entry(e, store));
        assert(type_code(empty_of(type_code(e.data))) == type_code(e.data));
        assert(entries.take(m) =~= entries.take(m - 1).push(e));
        assert((IndexEntryView { data: e.data, ..skeleton_of(e) }) =~= e);
    }
}

/// What materialization yields: lengths and fields are preserved, the data
/// comes from the type-specific reader, and each result is well formed.
proof fn lemma_fill_all_props<T: Tag>(
    skel: Seq<IndexEntryView<T>>,
    store: Seq<u8>,
    filled: Seq<IndexEntryView<T>>,
)
    requires
        spec_fill_all(skel, store) == Some(filled),
        forall|i: int| 0 <= i < skel.len() ==> type_code((#[trigger] skel[i]).data) <= 9,
    ensures
        filled.len() == skel.len(),
        forall|i: int|
            0 <= i < skel.len() ==> {
                &&& (#[trigger] filled[i]).tag == skel[i].tag
                &&& filled[i].offset == skel[i].offset
                &&& filled[i].num_items == skel[i].num_items
                &&& type_code(filled[i].data) == type_code(skel[i].data)
                &&& wf_entry(filled[i], store)
            },
    decreases skel.len(),
{
    if skel.len() > 0 {
        let prev = spec_fill_all(skel.drop_last(), store)->Some_0;
        lemma_fill_all_props(skel.drop_last(), store, prev);
        let e = skel.last();
        let code = type_code(e.data);
        lemma_fill_code::<T>(code, store, e.offset as int, e.num_items as nat);
        assert(filled =~= prev.push(
            IndexEntryView { data: spec_fill(code, store, e.offset as int, e.num_items as nat)->Some_0, ..e },
        ));
    }
}

// ---------------------------------------------------------------------------
// Round trip: writing then parsing gives the header back.
// ---------------------------------------------------------------------------

/// Writing a well-formed header and parsing the bytes yields the same
/// header, spanning exactly the written bytes.
pub proof fn lemma_write_parse_round_trip<T: Tag>(h: HeaderView<T>)
    requires
        wf_header(h),
    ensures
        spec_parse::<T>(spec_header_bytes(h)) == Ok::<(HeaderView<T>, int), RpmErrorView>(
            (h, spec_header_bytes(h).len() as int),
        ),
{
    let b = spec_header_bytes(h);
    let ihb = index_header_bytes(h.index_header);
    let n = h.entries.len() as int;
    lemma_records_bytes_len(h.entries);
    assert(ihb.len() == 16);
    assert(b.len() == 16 + 16 * n + h.store.len());

    // The preamble parses back to the header's own preamble.
    let first = b.subrange(0, 16);
    assert(first =~= ihb);
    assert(first[0] == h.index_header.magic[0]);
    assert(first[1] == h.index_header.magic[1]);
    assert(first[3] == h.index_header.version);
    assert(first.subrange(8, 12) =~= enc_u32(h.index_header.num_entries));
    assert(first.subrange(12, 16) =~= enc_u32(h.index_header.header_size));
    lemma_enc_dec_u32(h.index_header.num_entries);
    lemma_enc_dec_u32(h.index_header.header_size);
    assert(spec_parse_index_header(first) is Ok);
    let ih = spec_parse_index_header(first)->Ok_0;
    assert(first.subrange(0, 3) =~= h.index_header.magic);
    assert(ih =~= h.index_header);

    let need = 16 * (ih.num_entries as int) + (ih.header_size as int);
    assert(need == b.len() - 16);
    let dir = b.subrange(16, 16 + 16 * n);
    let storeg = b.subrange(16 + 16 * n, 16 + need);
    assert(dir =~= records_bytes(h.entries));
    assert(storeg =~= h.store);

    // The directory parses to the skeletons of the entries.
    assert forall|i: int| 0 <= i < n implies dir.subrange(16 * i, 16 * i + 16) == record_bytes(
        #[trigger] h.entries[i],
    ) by {
        lemma_records_bytes_index(h.entries, i);
    }
    lemma_parse_records::<T>(dir, h.entries, n as nat);
    assert(h.entries.take(n) =~= h.entries);

    // The skeletons fill back to the entries.
    lemma_fill_all_of_wf(h.entries, h.store, n);
    assert(spec_fill_all(skeletons(h.entries), storeg) == Some(h.entries));

    let q = spec_parse::<T>(b);
    assert(q is Ok);
    assert(q->Ok_0.0 =~= h);
    assert(q->Ok_0.1 == b.len() as int);
}

/// A header that parsed is well formed, and writing it reproduces the
/// parsed span of the input byte for byte, provided the reserved bytes the
/// parser skipped were zero.
pub proof fn lemma_parse_then_write<T: Tag>(b: Seq<u8>, h: HeaderView<T>, n: int)
    requires
        spec_parse::<T>(b) == Ok::<(HeaderView<T>, int), RpmErrorView>((h, n)),
        b[4] == 0 && b[5] == 0 && b[6] == 0 && b[7] == 0,
    ensures
        wf_header(h),
        16 <= n <= b.len(),
        spec_header_bytes(h) == b.subrange(0, n),
{
    let first = b.subrange(0, 16);
    let ih = spec_parse_index_header(first)->Ok_0;
    let ne = ih.num_entries as int;
    let need = 16 * ne + (ih.header_size as int);
    let dir = b.subrange(16, 16 + 16 * ne);
    let storeg = b.subrange(16 + 16 * ne, 16 + need);
    let skel = spec_parse_entries::<T>(dir, ih.num_entries as nat)->Ok_0;
    lemma_parse_entries_len::<T>(dir, ih.num_entries as nat);
    assert forall|i: int| 0 <= i < skel.len() implies type_code(
        (#[trigger] skel[i]).data,
    ) <= 9 by {
        lemma_parse_entries_index::<T>(dir, ih.num_entries as nat, i);
    }
    lemma_fill_all_props(skel, storeg, h.entries);

    // Well-formedness.
    assert(h.index_header == ih);
    assert(h.index_header.magic.len() == 3);
    assert(h.index_header.magic[0] == first[0] && first[0] == 0x8e);
    assert(h.index_header.magic[1] == first[1] && first[1] == 0xad);
    assert(h.store == storeg);
    assert(h.index_header.header_size == h.store.len());
    assert(h.index_header.num_entries == h.entries.len());
    assert(wf_header(h));

    // The preamble re-encodes byte for byte.
    lemma_dec_enc_u32(first.subrange(8, 12));
    lemma_dec_enc_u32(first.subrange(12, 16));
    let ihb = index_header_bytes(ih);
    assert forall|k: int| 0 <= k < 16 implies ihb[k] == b[k] by {
        if k < 3 {
            assert(ihb[k] == ih.magic[k]);
            assert(ih.magic[k] == first.subrange(0, 3)[k]);
        } else if k == 3 {
        } else if k < 8 {
        } else if k < 12 {
            assert(ihb[k] == enc_u32(ih.num_entries)[k - 8]);
            assert(enc_u32(ih.num_entries)[k - 8] == first.subrange(8, 12)[k - 8]);
        } else {
            assert(ihb[k] == enc_u32(ih.header_size)[k - 12]);
            assert(enc_u32(ih.header_size)[k - 12] == first.subrange(12, 16)[k - 12]);
        }
    }

    // The directory re-encodes byte for byte.
    lemma_records_of_parse::<T>(dir, ih.num_entries as nat);
    lemma_records_bytes_congruent(h.entries, skel);
    assert(records_bytes(h.entries) =~= dir);

    lemma_records_bytes_len(h.entries);
    assert(spec_header_bytes(h).len() == n);
    assert(spec_header_bytes(h) =~= b.subrange(0, n));
}

// ---------------------------------------------------------------------------
// Synthesized headers are well formed.
// ---------------------------------------------------------------------------

proof fn lemma_pad_aligns(len: int, a: int)
    requires
        len >= 0,
        a >= 1,
    ensures
        0 <= pad_len(len, a) < a,
        (len + pad_len(len, a)) % a == 0,
{
    vstd::arithmetic::div_mod::lemma_mod_bound(len, a);
    vstd::arithmetic::div_mod::lemma_mod_multiples_basic(1, a);
    let r = len % a;
    if r == 0 {
        assert(a % a == 0);
        assert(pad_len(len, a) == 0);
    } else {
        vstd::arithmetic::div_mod::lemma_small_mod((a - r) as nat, a as nat);
        assert(pad_len(len, a) == a - r);
        vstd::arithmetic::div_mod::lemma_fundamental_div_mod(len, a);
        assert(len + (a - r) == ((len / a) + 1) * a) by (nonlinear_arith)
            requires
                len == a * (len / a) + r,
        ;
        vstd::arithmetic::div_mod::lemma_mod_multiples_basic((len / a) + 1, a);
    }
}

proof fn lemma_store_after_prefix<T: Tag>(entries: Seq<IndexEntryView<T>>, i: int, j: int)
    requires
        0 <= i <= j,
    ensures
        forall|k: int|
            0 <= k < store_after(entries, i).len() ==> store_after(entries, j)[k] == store_after(
                entries,
                i,
            )[k],
    decreases j - i,
{
    if i < j {
        lemma_store_after_prefix(entries, i, j - 1);
        lemma_store_after_len_mono(entries, i, j - 1);
    }
}

/// Inside a synthesized store, entry `i`'s bytes sit at its assigned
/// offset, which honors the flavor's alignment.
proof fn lemma_synth_slot<T: Tag>(entries: Seq<IndexEntryView<T>>, i: int, ext: Seq<u8>)
    requires
        0 <= i < entries.len(),
    ensures
        ({
            let full = store_after(entries, entries.len() as int) + ext;
            let off = offset_after(entries, i);
            let el = encoded(entries[i].data).len() as int;
            &&& 0 <= off
            &&& off + el <= store_after(entries, entries.len() as int).len()
            &&& full.subrange(off, off + el) == encoded(entries[i].data)
            &&& off % align_of(entries[i].data) == 0
        }),
{
    let n = entries.len() as int;
    let prev = store_after(entries, i);
    let d = entries[i].data;
    let a = align_of(d);
    let pad = pad_len(prev.len() as int, a);
    lemma_pad_aligns(prev.len() as int, a);
    let si1 = store_after(entries, i + 1);
    let off = offset_after(entries, i);
    assert(si1 == prev + zeros(pad) + encoded(d));
    assert(off == prev.len() + pad);
    lemma_store_after_len_mono(entries, i + 1, n);
    lemma_store_after_prefix(entries, i + 1, n);
    let full = store_after(entries, n) + ext;
    assert forall|k: int| 0 <= k < encoded(d).len() implies full[off + k] == encoded(d)[k] by {
        assert(si1[off + k] == encoded(d)[k]);
        assert(store_after(entries, n)[off + k] == si1[off + k]);
        assert(full[off + k] == store_after(entries, n)[off + k]);
    }
    assert(full.subrange(off, off + encoded(d).len() as int) =~= encoded(d));
}

/// A synthesized header is well formed: its counts match, every entry's
/// data sits at its offset and decodes back, and every offset honors its
/// flavor's alignment. The sentinel comes first; the given entries keep
/// their tag, data and item count.
pub proof fn lemma_from_entries_wf<T: Tag>(entries: Seq<IndexEntryView<T>>, region_tag: T)
    requires
        forall|i: int| 0 <= i < entries.len() ==> encodable(#[trigger] entries[i]),
        entries.len() + 1 <= u32::MAX,
        16 * (entries.len() + 1) <= 0x80000000,
        store_after(entries, entries.len() as int).len() + 16 <= i32::MAX,
    ensures
        ({
            let h = spec_from_entries(entries, region_tag);
            &&& wf_header(h)
            &&& h.entries.len() == entries.len() + 1
            &&& h.index_header.num_entries == h.entries.len()
            &&& h.index_header.header_size == h.store.len()
            &&& h.entries[0] == spec_region_entry(
                region_tag,
                entries.len() as int,
                store_after(entries, entries.len() as int).len() as i32,
            )
            &&& (forall|i: int|
                0 <= i < entries.len() ==> {
                    let e = #[trigger] h.entries[i + 1];
                    &&& e.tag == entries[i].tag
                    &&& e.data == entries[i].data
                    &&& e.num_items == entries[i].num_items
                })
            &&& (forall|i: int|
                0 <= i < h.entries.len() ==> ((#[trigger] h.entries[i]).offset as int) % align_of(
                    h.entries[i].data,
                ) == 0)
        }),
{
    let n = entries.len() as int;
    let pre = store_after(entries, n);
    let rec = spec_region_record(region_tag, n);
    let payload = record_bytes(rec);
    lemma_record_bytes_len(rec);
    let h = spec_from_entries(entries, region_tag);
    assert(h.store.len() == pre.len() + 16);

    // The sentinel's payload sits at the end of the store and reads back.
    let sent = h.entries[0];
    assert(sent == spec_region_entry(region_tag, n, pre.len() as i32));
    assert(h.store.subrange(pre.len() as int, pre.len() as int + 16) =~= payload);
    assert(sent.offset as int == pre.len());
    assert(spec_fill(7, h.store, pre.len() as int, 16) == Some(IndexDataView::Bin(payload)));
    assert(wf_entry(sent, h.store));
    assert((sent.offset as int) % align_of(sent.data) == 0) by (nonlinear_arith)
        requires
            align_of(sent.data) == 1,
            sent.offset >= 0,
    ;

    // Each real entry's data sits at its assigned, aligned offset.
    assert forall|i: int| 0 <= i < n implies {
        let e = #[trigger] h.entries[i + 1];
        &&& e.tag == entries[i].tag
        &&& e.data == entries[i].data
        &&& e.num_items == entries[i].num_items
        &&& wf_entry(e, h.store)
        &&& (e.offset as int) % align_of(e.data) == 0
    } by {
        lemma_synth_slot(entries, i, payload);
        let e = h.entries[i + 1];
        lemma_store_after_len_mono(entries, i + 1, n);
        assert(e.offset as int == offset_after(entries, i));
        assert(h.store == store_after(entries, n) + payload);
        lemma_fill_encoded(e, h.store);
    }
}

/// Synthesis followed by writing and parsing yields the synthesized header
/// back: its first entry is the sentinel, and the entries after it carry
/// exactly the given tag, data and item count, with offsets assigned.
pub proof fn lemma_from_entries_round_trip<T: Tag>(entries: Seq<IndexEntryView<T>>, region_tag: T)
    requires
        forall|i: int| 0 <= i < entries.len() ==> encodable(#[trigger] entries[i]),
        entries.len() + 1 <= u32::MAX,
        16 * (entries.len() + 1) <= 0x80000000,
        store_after(entries, entries.len() as int).len() + 16 <= i32::MAX,
    ensures
        ({
            let h = spec_from_entries(entries, region_tag);
            &&& spec_parse::<T>(spec_header_bytes(h)) == Ok::<(HeaderView<T>, int), RpmErrorView>(
                (h, spec_header_bytes(h).len() as int),
            )
            &&& h.entries.len() == entries.len() + 1
            &&& (forall|i: int|
                0 <= i < entries.len() ==> {
                    let e = #[trigger] h.entries[i + 1];
                    &&& e.tag == entries[i].tag
                    &&& e.data == entries[i].data
                    &&& e.num_items == entries[i].num_items
                })
        }),
{
    lemma_from_entries_wf(entries, region_tag);
    lemma_write_parse_round_trip(spec_from_entries(entries, region_tag));
}

/// The sentinel's payload, parsed as a directory record, points back over
/// the whole directory: its offset is minus sixteen times the number of
/// entries, the sentinel included.
pub proof fn lemma_region_back_pointer<T: Tag>(entries: Seq<IndexEntryView<T>>, region_tag: T)
    requires
        entries.len() + 1 <= u32::MAX,
        16 * (entries.len() + 1) <= 0x80000000,
    ensures
        ({
            let h = spec_from_entries(entries, region_tag);
            &&& h.entries[0].data is Bin
            &&& spec_parse_record::<T>(h.entries[0].data->Bin_0) is Ok
            &&& spec_parse_record::<T>(h.entries[0].data->Bin_0)->Ok_0.offset as int == -16 * (
            h.entries.len() as int)
        }),
{
    let n = entries.len() as int;
    let rec = spec_region_record(region_tag, n);
    lemma_record_of_entry(rec);
    let h = spec_from_entries(entries, region_tag);
    assert(h.entries[0].data->Bin_0 == record_bytes(rec));
    assert(rec.offset as int == -16 * (n + 1));
    assert(h.entries.len() == n + 1);
}

// ---------------------------------------------------------------------------
// Signature round trip.
// ---------------------------------------------------------------------------

/// A byte string that parses as a signature header and is spanned by it
/// entirely, with zero reserved bytes and all-zero trailing padding, is
/// reproduced byte for byte by writing the header back, and its length is a
/// multiple of 8.
pub proof fn lemma_signature_round_trip<T: Tag>(b: Seq<u8>, h: HeaderView<T>, n: int)
    requires
        spec_parse::<T>(b) == Ok::<(HeaderView<T>, int), RpmErrorView>((h, n)),
        b.len() == n + sig_pad_len(h.index_header.header_size),
        b[4] == 0 && b[5] == 0 && b[6] == 0 && b[7] == 0,
        forall|k: int| n <= k < b.len() ==> b[k] == 0,
    ensures
        spec_parse_signature::<T>(b) == Ok::<(HeaderView<T>, int), RpmErrorView>(
            (h, b.len() as int),
        ),
        spec_signature_bytes(h) == b,
        b.len() % 8 == 0,
{
    lemma_parse_then_write(b, h, n);
    let pad = sig_pad_len(h.index_header.header_size);
    assert(spec_signature_bytes(h) =~= b);

    // The whole span is a multiple of 8: the preamble and directory are,
    // and the padding rounds the store up.
    let ih = spec_parse_index_header(b.subrange(0, 16))->Ok_0;
    let ne = ih.num_entries as int;
    let hs = ih.header_size as int;
    assert(n == 16 + 16 * ne + hs);
    assert(h.index_header == ih);
    vstd::arithmetic::div_mod::lemma_mod_bound(hs, 8);
    vstd::arithmetic::div_mod::lemma_fundamental_div_mod(hs, 8);
    if hs % 8 == 0 {
        assert(b.len() == (2 + 2 * ne + hs / 8) * 8) by (nonlinear_arith)
            requires
                b.len() == 16 + 16 * ne + hs,
                hs == 8 * (hs / 8),
        ;
        vstd::arithmetic::div_mod::lemma_mod_multiples_basic(2 + 2 * ne + hs / 8, 8);
    } else {
        assert(pad == 8 - hs % 8);
        assert(b.len() == (2 + 2 * ne + hs / 8 + 1) * 8) by (nonlinear_arith)
            requires
                b.len() == 16 + 16 * ne + hs + (8 - hs % 8),
                hs == 8 * (hs / 8) + hs % 8,
        ;
        vstd::arithmetic::div_mod::lemma_mod_multiples_basic(2 + 2 * ne + hs / 8 + 1, 8);
    }
}

} // verus!

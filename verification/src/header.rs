//! The assembled header: preamble, entry directory and store, with the
//! two-phase parser, the writer, typed entry lookup, and the synthesis path
//! that builds a header (region sentinel included) from an entry list.

use vstd::prelude::*;
use vstd::slice::{slice_subrange, slice_to_vec};
use crate::bytes::{extend_bytes, zeros};
use crate::data::{
    align_of, encoded, pad_len, spec_fill, spec_kind_name, type_code, IndexData,
    IndexDataView,
};
use crate::entry::{record_bytes, spec_parse_record, IndexEntry, IndexEntryView};
use crate::error::{RpmError, RpmErrorView};
use crate::index_header::{index_header_bytes, spec_parse_index_header, IndexHeader, IndexHeaderView};
use crate::tag::Tag;

verus! {

/// The assembled structure: preamble, ordered entries and the raw store.
#[derive(Debug, PartialEq)]
pub struct Header<T> {
    pub index_header: IndexHeader,
    pub index_entries: Vec<IndexEntry<T>>,
    pub store: Vec<u8>,
}

/// The views of a list of entries.
pub open spec fn views_of<T: Copy>(v: Seq<IndexEntry<T>>) -> Seq<IndexEntryView<T>> {
    v.map_values(|e: IndexEntry<T>| e@)
}

/// The mathematical shape of a [`Header`].
#[verifier::ext_equal]
pub ghost struct HeaderView<T> {
    pub index_header: IndexHeaderView,
    pub entries: Seq<IndexEntryView<T>>,
    pub store: Seq<u8>,
}

impl<T: Copy> View for Header<T> {
    type V = HeaderView<T>;

    open spec fn view(&self) -> HeaderView<T> {
        HeaderView {
            index_header: self.index_header@,
            entries: views_of(self.index_entries@),
            store: self.store@,
        }
    }
}

// ---------------------------------------------------------------------------
// Wire layout of a whole header.
// ---------------------------------------------------------------------------

/// The concatenated 16-byte directory records of a list of entries.
pub open spec fn records_bytes<T: Tag>(entries: Seq<IndexEntryView<T>>) -> Seq<u8>
    decreases entries.len(),
{
    if entries.len() == 0 {
        Seq::empty()
    } else {
        records_bytes(entries.drop_last()) + record_bytes(entries.last())
    }
}

pub proof fn lemma_records_bytes_len<T: Tag>(entries: Seq<IndexEntryView<T>>)
    ensures
        records_bytes(entries).len() == 16 * entries.len(),
    decreases entries.len(),
{
    if entries.len() > 0 {
        lemma_records_bytes_len(entries.drop_last());
    }
}

/// The full wire image of a header: preamble, directory, store.
pub open spec fn spec_header_bytes<T: Tag>(h: HeaderView<T>) -> Seq<u8> {
    index_header_bytes(h.index_header) + records_bytes(h.entries) + h.store
}

// ---------------------------------------------------------------------------
// The specification-level parser that the executable parser mirrors.
// ---------------------------------------------------------------------------

/// The first `n` skeleton entries parsed from the directory bytes, or the
/// error of the first record that is rejected.
pub open spec fn spec_parse_entries<T: Tag>(dir: Seq<u8>, n: nat) -> Result<
    Seq<IndexEntryView<T>>,
    RpmErrorView,
>
    recommends
        16 * n <= dir.len(),
    decreases n,
{
    if n == 0 {
        Ok(Seq::empty())
    } else {
        match spec_parse_entries::<T>(dir, (n - 1) as nat) {
            Err(e) => Err(e),
            Ok(s) => match spec_parse_record::<T>(dir.subrange(16 * (n - 1), 16 * n as int)) {
                Err(e) => Err(e),
                Ok(ent) => Ok(s.push(ent)),
            },
        }
    }
}

/// Every skeleton entry with its data materialized from the store, or
/// nothing if some entry's data runs out of the store.
pub open spec fn spec_fill_all<T: Tag>(skel: Seq<IndexEntryView<T>>, store: Seq<u8>) -> Option<
    Seq<IndexEntryView<T>>,
>
    decreases skel.len(),
{
    if skel.len() == 0 {
        Some(Seq::empty())
    } else {
        match spec_fill_all(skel.drop_last(), store) {
            None => None,
            Some(s) => {
                let e = skel.last();
                match spec_fill(type_code(e.data), store, e.offset as int, e.num_items as nat) {
                    None => None,
                    Some(d) => Some(s.push(IndexEntryView { data: d, ..e })),
                }
            },
        }
    }
}

/// What parsing a byte string yields: the header and how many bytes of the
/// input it spans, or the error that rejects the input.
pub open spec fn spec_parse<T: Tag>(input: Seq<u8>) -> Result<(HeaderView<T>, int), RpmErrorView> {
    if input.len() < 16 {
        Err(RpmErrorView::ShortInput)
    } else {
        match spec_parse_index_header(input.subrange(0, 16)) {
            Err(e) => Err(e),
            Ok(ih) => {
                let need = 16 * (ih.num_entries as int) + (ih.header_size as int);
                if input.len() < 16 + need {
                    Err(RpmErrorView::ShortInput)
                } else {
                    let dir = input.subrange(16, 16 + 16 * (ih.num_entries as int));
                    let store = input.subrange(16 + 16 * (ih.num_entries as int), 16 + need);
                    match spec_parse_entries::<T>(dir, ih.num_entries as nat) {
                        Err(e) => Err(e),
                        Ok(skel) => match spec_fill_all(skel, store) {
                            None => Err(RpmErrorView::ShortInput),
                            Some(entries) => Ok(
                                (HeaderView { index_header: ih, entries, store }, 16 + need),
                            ),
                        },
                    }
                }
            },
        }
    }
}

/// Once the records up to `i` parse and record `i` is rejected, parsing any
/// longer prefix of the directory is rejected with record `i`'s error.
proof fn lemma_parse_entries_err<T: Tag>(dir: Seq<u8>, i: nat, m: nat)
    requires
        i < m,
        spec_parse_entries::<T>(dir, i) is Ok,
        spec_parse_record::<T>(dir.subrange(16 * i as int, 16 * i as int + 16)) is Err,
    ensures
        spec_parse_entries::<T>(dir, m) == Err::<Seq<IndexEntryView<T>>, RpmErrorView>(
            spec_parse_record::<T>(dir.subrange(16 * i as int, 16 * i as int + 16))->Err_0,
        ),
    decreases m,
{
    if m == i + 1 {
    } else {
        lemma_parse_entries_err::<T>(dir, i, (m - 1) as nat);
    }
}

/// Once some entry's data runs out of the store, materializing the whole
/// entry list fails.
proof fn lemma_fill_all_none<T: Tag>(skel: Seq<IndexEntryView<T>>, store: Seq<u8>, j: int)
    requires
        0 <= j < skel.len(),
        spec_fill(
            type_code(skel[j].data),
            store,
            skel[j].offset as int,
            skel[j].num_items as nat,
        ) is None,
    ensures
        spec_fill_all(skel, store) is None,
    decreases skel.len(),
{
    if j < skel.len() - 1 {
        assert(skel.drop_last()[j] == skel[j]);
        lemma_fill_all_none(skel.drop_last(), store, j);
    }
}

impl<T: Tag> Header<T> {
    /// Parses a header from the front of `input`: the 16-byte preamble, the
    /// directory it sizes, and the store, materializing each entry's data.
    /// Returns the header and the number of input bytes it spans.
    #[verifier::loop_isolation(false)]
    #[verifier::rlimit(60)]
    pub fn parse(input: &[u8]) -> (r: Result<(Header<T>, usize), RpmError>)
        ensures
            match r {
                Ok(p) => spec_parse::<T>(input@) matches Ok(q) && q.0 == p.0@ && q.1 == p.1 as int,
                Err(e) => spec_parse::<T>(input@) matches Err(q) && q == e@,
            },
    {
        let n = input.len();
        if n < 16 {
            return Err(RpmError::ShortInput);
        }
        let ih = match IndexHeader::parse(slice_subrange(input, 0, 16)) {
            Ok(h) => h,
            Err(e) => {
                return Err(e);
            },
        };
        let ne = ih.num_entries;
        let hs = ih.header_size;
        let need: u64 = 16u64 * (ne as u64) + (hs as u64);
        if ((n - 16) as u64) < need {
            return Err(RpmError::ShortInput);
        }
        let ne_us = ne as usize;
        let dir_end: usize = 16 + 16 * ne_us;
        let store_end: usize = dir_end + (hs as usize);
        let ghost dir = input@.subrange(16, dir_end as int);
        let ghost storeg = input@.subrange(dir_end as int, store_end as int);

        // First pass: the fixed-size directory records.
        let mut entries: Vec<IndexEntry<T>> = Vec::new();
        proof {
            assert(views_of(entries@) =~= Seq::<IndexEntryView<T>>::empty());
        }
        let mut i: usize = 0;
        while i < ne_us
            invariant
                i <= ne_us,
                entries@.len() == i,
                spec_parse_entries::<T>(dir, i as nat) == Ok::<_, RpmErrorView>(
                    views_of(entries@),
                ),
            decreases ne_us - i,
        {
            proof {
                assert(dir.subrange(16 * i as int, 16 * i as int + 16) =~= input@.subrange(
                    16 + 16 * i,
                    16 + 16 * i + 16,
                ));
            }
            match IndexEntry::<T>::parse(input, 16 + 16 * i) {
                Ok(e) => {
                    let ghost prev = views_of(entries@);
                    entries.push(e);
                    proof {
                        assert(views_of(entries@) =~= prev.push(entries@.last()@));
                        assert(spec_parse_entries::<T>(dir, (i + 1) as nat) == Ok::<
                            _,
                            RpmErrorView,
                        >(views_of(entries@)));
                    }
                },
                Err(err) => {
                    proof {
                        lemma_parse_entries_err::<T>(dir, i as nat, ne as nat);
                    }
                    return Err(err);
                },
            }
            i = i + 1;
        }
        let ghost skel = views_of(entries@);

        // The store is copied out whole; entry data points into it.
        let store: Vec<u8> = slice_to_vec(slice_subrange(input, dir_end, store_end));

        // Second pass: materialize each entry's data from the store.
        let mut filled: Vec<IndexEntry<T>> = Vec::new();
        proof {
            assert(skel.take(0) =~= Seq::<IndexEntryView<T>>::empty());
            assert(views_of(filled@) =~= Seq::<IndexEntryView<T>>::empty());
        }
        let mut j: usize = 0;
        while j < ne_us
            invariant
                j <= ne_us,
                filled@.len() == j,
                spec_fill_all(skel.take(j as int), storeg) == Some(views_of(filled@)),
            decreases ne_us - j,
        {
            let e = &entries[j];
            match e.data.fill_from_store(store.as_slice(), e.offset, e.num_items) {
                Ok(d) => {
                    let ne2 = IndexEntry { tag: e.tag, data: d, offset: e.offset, num_items: e.num_items };
                    let ghost prev = views_of(filled@);
                    filled.push(ne2);
                    proof {
                        assert(skel.take(j + 1).drop_last() =~= skel.take(j as int));
                        assert(skel.take(j + 1).last() == skel[j as int]);
                        assert(views_of(filled@) =~= prev.push(filled@.last()@));
                        assert(spec_fill_all(skel.take(j + 1), storeg) == Some(views_of(filled@)));
                    }
                },
                Err(err) => {
                    proof {
                        lemma_fill_all_none::<T>(skel, storeg, j as int);
                    }
                    return Err(err);
                },
            }
            j = j + 1;
        }
        proof {
            assert(skel.take(ne_us as int) =~= skel);
        }
        let h = Header { index_header: ih, index_entries: filled, store };
        proof {
            let q = spec_parse::<T>(input@)->Ok_0;
            assert(h@ =~~= q.0);
        }
        Ok((h, store_end))
    }

    /// Writes the preamble, each entry's directory record in order, and the
    /// raw store bytes.
    pub fn write(&self, out: &mut Vec<u8>)
        ensures
            final (out)@ == old(out)@ + spec_header_bytes(self@),
    {
        self.index_header.write(out);
        let ghost evs = views_of(self.index_entries@);
        let n = self.index_entries.len();
        let mut i: usize = 0;
        while i < n
            invariant
                i <= n,
                n == self.index_entries@.len(),
                evs == views_of(self.index_entries@),
                out@ == old(out)@ + index_header_bytes(self.index_header@) + records_bytes(
                    evs.take(i as int),
                ),
            decreases n - i,
        {
            self.index_entries[i].write_index(out);
            proof {
                assert(evs.take(i + 1).drop_last() =~= evs.take(i as int));
                assert(evs.take(i + 1).last() == evs[i as int]);
                assert(out@ =~= old(out)@ + index_header_bytes(self.index_header@)
                    + records_bytes(evs.take(i + 1)));
            }
            i = i + 1;
        }
        extend_bytes(out, self.store.as_slice());
        proof {
            assert(evs.take(n as int) =~= evs);
            assert(out@ =~= old(out)@ + spec_header_bytes(self@));
        }
    }
}

// ---------------------------------------------------------------------------
// Entry lookup and typed access.
// ---------------------------------------------------------------------------

/// The position of the first entry carrying `tag`, if any.
pub open spec fn spec_find<T: Tag>(entries: Seq<IndexEntryView<T>>, tag: T) -> Option<int>
    decreases entries.len(),
{
    if entries.len() == 0 {
        None
    } else if entries[0].tag == tag {
        Some(0)
    } else {
        match spec_find(entries.drop_first(), tag) {
            Some(i) => Some(i + 1),
            None => None,
        }
    }
}

pub proof fn lemma_find_found<T: Tag>(entries: Seq<IndexEntryView<T>>, tag: T, i: int)
    requires
        0 <= i < entries.len(),
        entries[i].tag == tag,
        forall|k: int| 0 <= k < i ==> entries[k].tag != tag,
    ensures
        spec_find(entries, tag) == Some(i),
    decreases entries.len(),
{
    if i > 0 {
        lemma_find_found(entries.drop_first(), tag, i - 1);
    }
}

pub proof fn lemma_find_none<T: Tag>(entries: Seq<IndexEntryView<T>>, tag: T)
    requires
        forall|k: int| 0 <= k < entries.len() ==> entries[k].tag != tag,
    ensures
        spec_find(entries, tag) is None,
    decreases entries.len(),
{
    if entries.len() > 0 {
        lemma_find_none(entries.drop_first(), tag);
    }
}

pub proof fn lemma_find_in_range<T: Tag>(entries: Seq<IndexEntryView<T>>, tag: T)
    ensures
        spec_find(entries, tag) matches Some(i) ==> 0 <= i < entries.len() && entries[i].tag
            == tag,
    decreases entries.len(),
{
    if entries.len() > 0 {
        lemma_find_in_range(entries.drop_first(), tag);
    }
}

/// The single string carried by the entry with `tag`, or the error that a
/// lookup for it surfaces.
pub open spec fn spec_get_string<T: Tag>(h: HeaderView<T>, tag: T) -> Result<
    Seq<char>,
    RpmErrorView,
> {
    match spec_find(h.entries, tag) {
        None => Err(RpmErrorView::TagNotFound(tag.spec_name())),
        Some(i) => match h.entries[i].data {
            IndexDataView::StringTag(s) => Ok(s),
            _ => Err(
                RpmErrorView::UnexpectedTagDataType {
                    expected_data_type: "string"@,
                    actual_data_type: spec_kind_name(h.entries[i].data),
                    tag: tag.spec_name(),
                },
            ),
        },
    }
}

/// The binary bytes carried by the entry with `tag`, or the lookup error.
pub open spec fn spec_get_binary<T: Tag>(h: HeaderView<T>, tag: T) -> Result<
    Seq<u8>,
    RpmErrorView,
> {
    match spec_find(h.entries, tag) {
        None => Err(RpmErrorView::TagNotFound(tag.spec_name())),
        Some(i) => match h.entries[i].data {
            IndexDataView::Bin(v) => Ok(v),
            _ => Err(
                RpmErrorView::UnexpectedTagDataType {
                    expected_data_type: "binary"@,
                    actual_data_type: spec_kind_name(h.entries[i].data),
                    tag: tag.spec_name(),
                },
            ),
        },
    }
}

/// The first 32-bit integer carried by the entry with `tag`; an empty
/// integer entry is reported as a type mismatch.
pub open spec fn spec_get_i32<T: Tag>(h: HeaderView<T>, tag: T) -> Result<i32, RpmErrorView> {
    match spec_find(h.entries, tag) {
        None => Err(RpmErrorView::TagNotFound(tag.spec_name())),
        Some(i) => match h.entries[i].data {
            IndexDataView::Int32(v) => {
                if v.len() > 0 {
                    Ok(v[0])
                } else {
                    Err(
                        RpmErrorView::UnexpectedTagDataType {
                            expected_data_type: "i32"@,
                            actual_data_type: spec_kind_name(h.entries[i].data),
                            tag: tag.spec_name(),
                        },
                    )
                }
            },
            _ => Err(
                RpmErrorView::UnexpectedTagDataType {
                    expected_data_type: "i32"@,
                    actual_data_type: spec_kind_name(h.entries[i].data),
                    tag: tag.spec_name(),
                },
            ),
        },
    }
}

/// All 32-bit integers carried by the entry with `tag`.
pub open spec fn spec_get_i32_array<T: Tag>(h: HeaderView<T>, tag: T) -> Result<
    Seq<i32>,
    RpmErrorView,
> {
    match spec_find(h.entries, tag) {
        None => Err(RpmErrorView::TagNotFound(tag.spec_name())),
        Some(i) => match h.entries[i].data {
            IndexDataView::Int32(v) => Ok(v),
            _ => Err(
                RpmErrorView::UnexpectedTagDataType {
                    expected_data_type: "i32 array"@,
                    actual_data_type: spec_kind_name(h.entries[i].data),
                    tag: tag.spec_name(),
                },
            ),
        },
    }
}

/// The first 64-bit integer carried by the entry with `tag`; an empty
/// integer entry is reported as a type mismatch.
pub open spec fn spec_get_i64<T: Tag>(h: HeaderView<T>, tag: T) -> Result<i64, RpmErrorView> {
    match spec_find(h.entries, tag) {
        None => Err(RpmErrorView::TagNotFound(tag.spec_name())),
        Some(i) => match h.entries[i].data {
            IndexDataView::Int64(v) => {
                if v.len() > 0 {
                    Ok(v[0])
                } else {
                    Err(
                        RpmErrorView::UnexpectedTagDataType {
                            expected_data_type: "i64"@,
                            actual_data_type: spec_kind_name(h.entries[i].data),
                            tag: tag.spec_name(),
                        },
                    )
                }
            },
            _ => Err(
                RpmErrorView::UnexpectedTagDataType {
                    expected_data_type: "i64"@,
                    actual_data_type: spec_kind_name(h.entries[i].data),
                    tag: tag.spec_name(),
                },
            ),
        },
    }
}

/// The strings carried by a string-array or i18n entry with `tag`.
pub open spec fn spec_get_string_array<T: Tag>(h: HeaderView<T>, tag: T) -> Result<
    Seq<Seq<char>>,
    RpmErrorView,
> {
    match spec_find(h.entries, tag) {
        None => Err(RpmErrorView::TagNotFound(tag.spec_name())),
        Some(i) => match h.entries[i].data {
            IndexDataView::StringArray(ss) => Ok(ss),
            IndexDataView::I18NString(ss) => Ok(ss),
            _ => Err(
                RpmErrorView::UnexpectedTagDataType {
                    expected_data_type: "string array"@,
                    actual_data_type: spec_kind_name(h.entries[i].data),
                    tag: tag.spec_name(),
                },
            ),
        },
    }
}

impl<T: Tag> Header<T> {
    /// A linear scan for the first entry carrying `tag`.
    #[verifier::loop_isolation(false)]
    pub fn find_entry_or_err(&self, tag: &T) -> (r: Result<&IndexEntry<T>, RpmError>)
        ensures
            match spec_find(self@.entries, *tag) {
                Some(i) => r matches Ok(e) && e@ == self@.entries[i],
                None => r matches Err(err) && err@ == RpmErrorView::TagNotFound(tag.spec_name()),
            },
    {
        let n = self.index_entries.len();
        let mut i: usize = 0;
        while i < n
            invariant
                i <= n,
                forall|k: int| 0 <= k < i ==> self@.entries[k].tag != *tag,
            decreases n - i,
        {
            if self.index_entries[i].tag.tag_eq(*tag) {
                proof {
                    lemma_find_found(self@.entries, *tag, i as int);
                }
                return Ok(&self.index_entries[i]);
            }
            i = i + 1;
        }
        proof {
            lemma_find_none(self@.entries, *tag);
        }
        Err(RpmError::TagNotFound(tag.name()))
    }

    /// The binary bytes of the entry with `tag`.
    pub fn get_entry_binary_data(&self, tag: T) -> (r: Result<&[u8], RpmError>)
        ensures
            match spec_get_binary(self@, tag) {
                Ok(v) => r matches Ok(x) && x@ == v,
                Err(err) => r matches Err(e) && e@ == err,
            },
    {
        let entry = match self.find_entry_or_err(&tag) {
            Ok(e) => e,
            Err(e) => {
                return Err(e);
            },
        };
        match entry.data.as_binary() {
            Some(v) => Ok(v),
            None => Err(
                RpmError::UnexpectedTagDataType {
                    expected_data_type: "binary".to_owned(),
                    actual_data_type: entry.data.kind_name(),
                    tag: tag.name(),
                },
            ),
        }
    }

    /// The single string of the entry with `tag`.
    pub fn get_entry_string_data(&self, tag: T) -> (r: Result<&str, RpmError>)
        ensures
            match spec_get_string(self@, tag) {
                Ok(v) => r matches Ok(x) && x@ == v,
                Err(err) => r matches Err(e) && e@ == err,
            },
    {
        let entry = match self.find_entry_or_err(&tag) {
            Ok(e) => e,
            Err(e) => {
                return Err(e);
            },
        };
        match entry.data.as_str() {
            Some(v) => Ok(v),
            None => Err(
                RpmError::UnexpectedTagDataType {
                    expected_data_type: "string".to_owned(),
                    actual_data_type: entry.data.kind_name(),
                    tag: tag.name(),
                },
            ),
        }
    }

    /// The first 32-bit integer of the entry with `tag`.
    pub fn get_entry_i32_data(&self, tag: T) -> (r: Result<i32, RpmError>)
        ensures
            match spec_get_i32(self@, tag) {
                Ok(v) => r == Ok::<i32, RpmError>(v),
                Err(err) => r matches Err(e) && e@ == err,
            },
    {
        let entry = match self.find_entry_or_err(&tag) {
            Ok(e) => e,
            Err(e) => {
                return Err(e);
            },
        };
        match entry.data.as_i32() {
            Some(v) => Ok(v),
            None => Err(
                RpmError::UnexpectedTagDataType {
                    expected_data_type: "i32".to_owned(),
                    actual_data_type: entry.data.kind_name(),
                    tag: tag.name(),
                },
            ),
        }
    }

    /// All 32-bit integers of the entry with `tag`.
    pub fn get_entry_i32_array_data(&self, tag: T) -> (r: Result<Vec<i32>, RpmError>)
        ensures
            match spec_get_i32_array(self@, tag) {
                Ok(v) => r matches Ok(x) && x@ == v,
                Err(err) => r matches Err(e) && e@ == err,
            },
    {
        let entry = match self.find_entry_or_err(&tag) {
            Ok(e) => e,
            Err(e) => {
                return Err(e);
            },
        };
        match entry.data.as_i32_array() {
            Some(v) => Ok(v),
            None => Err(
                RpmError::UnexpectedTagDataType {
                    expected_data_type: "i32 array".to_owned(),
                    actual_data_type: entry.data.kind_name(),
                    tag: tag.name(),
                },
            ),
        }
    }

    /// The first 64-bit integer of the entry with `tag`.
    pub fn get_entry_i64_data(&self, tag: T) -> (r: Result<i64, RpmError>)
        ensures
            match spec_get_i64(self@, tag) {
                Ok(v) => r == Ok::<i64, RpmError>(v),
                Err(err) => r matches Err(e) && e@ == err,
            },
    {
        let entry = match self.find_entry_or_err(&tag) {
            Ok(e) => e,
            Err(e) => {
                return Err(e);
            },
        };
        match entry.data.as_i64() {
            Some(v) => Ok(v),
            None => Err(
                RpmError::UnexpectedTagDataType {
                    expected_data_type: "i64".to_owned(),
                    actual_data_type: entry.data.kind_name(),
                    tag: tag.name(),
                },
            ),
        }
    }

    /// The strings of the string-array or i18n entry with `tag`.
    pub fn get_entry_string_array_data(&self, tag: T) -> (r: Result<&[String], RpmError>)
        ensures
            match spec_get_string_array(self@, tag) {
                Ok(v) => r matches Ok(x) && crate::data::strs_view(x@) == v,
                Err(err) => r matches Err(e) && e@ == err,
            },
    {
        let entry = match self.find_entry_or_err(&tag) {
            Ok(e) => e,
            Err(e) => {
                return Err(e);
            },
        };
        match entry.data.as_string_array() {
            Some(v) => Ok(v),
            None => Err(
                RpmError::UnexpectedTagDataType {
                    expected_data_type: "string array".to_owned(),
                    actual_data_type: entry.data.kind_name(),
                    tag: tag.name(),
                },
            ),
        }
    }
}


// ---------------------------------------------------------------------------
// Synthesis: building a header from an entry list.
// ---------------------------------------------------------------------------

/// The store contents after the first `i` entries have been appended, each
/// with its alignment padding.
pub open spec fn store_after<T: Tag>(entries: Seq<IndexEntryView<T>>, i: int) -> Seq<u8>
    recommends
        i <= entries.len(),
    decreases i when i >= 0
{
    if i <= 0 {
        Seq::empty()
    } else {
        let prev = store_after(entries, i - 1);
        let d = entries[i - 1].data;
        prev + zeros(pad_len(prev.len() as int, align_of(d))) + encoded(d)
    }
}

/// The store offset assigned to entry `i` during synthesis: right after the
/// padding that precedes its data.
pub open spec fn offset_after<T: Tag>(entries: Seq<IndexEntryView<T>>, i: int) -> int {
    store_after(entries, i + 1).len() - encoded(entries[i].data).len()
}

pub proof fn lemma_store_after_len_mono<T: Tag>(entries: Seq<IndexEntryView<T>>, i: int, j: int)
    requires
        0 <= i <= j,
    ensures
        store_after(entries, i).len() <= store_after(entries, j).len(),
    decreases j - i,
{
    if i < j {
        lemma_store_after_len_mono(entries, i, j - 1);
    }
}

/// The directory record that the region sentinel stores as its payload: a
/// binary-typed record whose offset is the negative back-pointer spanning
/// all entries including the sentinel itself.
pub open spec fn spec_region_record<T: Tag>(tag: T, records_count: int) -> IndexEntryView<T>
    recommends
        0 <= records_count,
        16 * (records_count + 1) <= 0x80000000,
{
    IndexEntryView {
        tag,
        data: IndexDataView::Bin(Seq::empty()),
        offset: (-16 * (records_count + 1)) as i32,
        num_items: 16,
    }
}

/// The region sentinel entry: positioned at `offset` (the end of all real
/// entry data) and carrying the 16-byte back-pointer record as its payload.
pub open spec fn spec_region_entry<T: Tag>(tag: T, records_count: int, offset: i32) -> IndexEntryView<T> {
    IndexEntryView {
        tag,
        data: IndexDataView::Bin(record_bytes(spec_region_record(tag, records_count))),
        offset,
        num_items: 16,
    }
}

/// The header that synthesis yields: the sentinel first, then the given
/// entries with their offsets assigned, over the store they were appended
/// to.
pub open spec fn spec_from_entries<T: Tag>(entries: Seq<IndexEntryView<T>>, region_tag: T) -> HeaderView<T> {
    let n = entries.len() as int;
    let pre = store_after(entries, n);
    let store = pre + record_bytes(spec_region_record(region_tag, n));
    HeaderView {
        index_header: IndexHeaderView {
            magic: seq![0x8eu8, 0xadu8, 0xe8u8],
            version: 1u8,
            num_entries: (n + 1) as u32,
            header_size: store.len() as u32,
        },
        entries: seq![spec_region_entry(region_tag, n, pre.len() as i32)] + Seq::new(
            entries.len(),
            |i: int| IndexEntryView { offset: offset_after(entries, i) as i32, ..entries[i] },
        ),
        store,
    }
}

impl<T: Tag> Header<T> {
    /// Builds the region sentinel: a binary entry at `offset` whose 16-byte
    /// payload is a directory record pointing back over `records_count`
    /// entries plus the sentinel itself.
    pub fn create_region_tag(tag: T, records_count: i32, offset: i32) -> (r: IndexEntry<T>)
        requires
            0 <= records_count,
            16 * (records_count + 1) <= 0x80000000,
        ensures
            r@ == spec_region_entry(tag, records_count as int, offset),
    {
        let mut header_immutable_index_data: Vec<u8> = Vec::new();
        let neg64: i64 = -(16i64 * ((records_count as i64) + 1));
        let neg: i32 = neg64 as i32;
        let mut hie = IndexEntry::new(tag, neg, IndexData::Bin(Vec::new()));
        hie.num_items = 16;
        proof {
            assert(hie@ =~~= spec_region_record(tag, records_count as int));
        }
        hie.write_index(&mut header_immutable_index_data);
        proof {
            crate::entry::lemma_record_bytes_len(hie@);
            assert(header_immutable_index_data@ =~= record_bytes(
                spec_region_record(tag, records_count as int),
            ));
        }
        let r = IndexEntry::new(tag, offset, IndexData::Bin(header_immutable_index_data));
        proof {
            assert(r@ =~~= spec_region_entry(tag, records_count as int, offset));
        }
        r
    }

    /// Synthesizes a header from the given entries: assigns each entry its
    /// aligned store offset while appending its data, then appends the
    /// region sentinel whose payload points back over the whole directory.
    #[verifier::loop_isolation(false)]
    pub fn from_entries(actual_records: Vec<IndexEntry<T>>, region_tag: T) -> (result: Header<T>)
        requires
            actual_records@.len() + 1 <= u32::MAX,
            16 * (actual_records@.len() + 1) <= 0x80000000,
            store_after(views_of(actual_records@), actual_records@.len() as int).len() + 16
                <= i32::MAX,
        ensures
            result@ == spec_from_entries(views_of(actual_records@), region_tag),
    {
        let ghost evs = views_of(actual_records@);
        let mut records = actual_records;
        let mut out: Vec<IndexEntry<T>> = Vec::new();
        let mut store: Vec<u8> = Vec::new();
        let n = records.len();
        proof {
            assert(store@ =~= store_after(evs, 0));
        }
        let mut i: usize = 0;
        while i < n
            invariant
                i <= n,
                records@.len() == n - i,
                forall|k: int| 0 <= k < n - i ==> #[trigger] records@[k] == actual_records@[
                    i + k
                ],
                store@ == store_after(evs, i as int),
                out@.len() == i,
                forall|k: int|
                    0 <= k < i ==> #[trigger] out@[k]@ == (IndexEntryView {
                        offset: offset_after(evs, k) as i32,
                        ..evs[k]
                    }),
            decreases n - i,
        {
            let mut rec = records.remove(0);
            proof {
                assert(rec@ == evs[i as int]);
                lemma_store_after_len_mono(evs, i as int + 1, n as int);
            }
            let off: usize = store.len();
            rec.offset = off as i32;
            let alignment = rec.data.append(&mut store);
            rec.offset = rec.offset + alignment as i32;
            proof {
                assert(store@ =~= store_after(evs, i as int + 1));
                assert(rec.offset == offset_after(evs, i as int));
            }
            out.push(rec);
            i = i + 1;
        }
        proof {
            assert(store@ == store_after(evs, n as int));
        }
        let slen = store.len();
        let region = Self::create_region_tag(region_tag, n as i32, slen as i32);
        let _pad: u32 = region.data.append(&mut store);
        proof {
            assert(store@ =~= store_after(evs, n as int) + record_bytes(
                spec_region_record(region_tag, n as int),
            ));
        }
        let mut all_records: Vec<IndexEntry<T>> = Vec::new();
        all_records.push(region);
        let mut out2 = out;
        all_records.append(&mut out2);
        let index_header = IndexHeader::new((n + 1) as u32, store.len() as u32);
        let result = Header { index_header, index_entries: all_records, store };
        proof {
            assert(result@.entries =~= spec_from_entries(evs, region_tag).entries);
            assert(result@ =~~= spec_from_entries(evs, region_tag));
        }
        result
    }
}

} // verus!

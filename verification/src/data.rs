//! The ten tagged data flavors a header entry can carry, their store
//! encodings with per-type alignment, and the decoding of a flavor back out
//! of a store.

use vstd::prelude::*;
use vstd::utf8::{decode_utf8, encode_utf8, valid_utf8};
use crate::bytes::{
    as_signed8, as_unsigned8, dec_i16, dec_i32, dec_i64, enc_i16, enc_i32, enc_i64, extend_bytes,
    nul_from, zeros, push_i16, push_i32, push_i64, find_nul, read_i16_at, read_i32_at,
    read_i64_at, read_i8_at,
};
use crate::error::RpmError;
use vstd::slice::{slice_subrange, slice_to_vec};

verus! {

/// Data as present in an index entry.
#[derive(Debug, PartialEq, Eq)]
pub enum IndexData {
    Null,
    Char(Vec<u8>),
    Int8(Vec<i8>),
    Int16(Vec<i16>),
    Int32(Vec<i32>),
    Int64(Vec<i64>),
    StringTag(String),
    Bin(Vec<u8>),
    StringArray(Vec<String>),
    I18NString(Vec<String>),
}

/// The mathematical shape of an [`IndexData`].
#[verifier::ext_equal]
pub ghost enum IndexDataView {
    Null,
    Char(Seq<u8>),
    Int8(Seq<i8>),
    Int16(Seq<i16>),
    Int32(Seq<i32>),
    Int64(Seq<i64>),
    StringTag(Seq<char>),
    Bin(Seq<u8>),
    StringArray(Seq<Seq<char>>),
    I18NString(Seq<Seq<char>>),
}

/// The character sequences of a list of strings.
pub open spec fn strs_view(v: Seq<String>) -> Seq<Seq<char>> {
    v.map_values(|s: String| s@)
}

impl View for IndexData {
    type V = IndexDataView;

    open spec fn view(&self) -> IndexDataView {
        match self {
            IndexData::Null => IndexDataView::Null,
            IndexData::Char(v) => IndexDataView::Char(v@),
            IndexData::Int8(v) => IndexDataView::Int8(v@),
            IndexData::Int16(v) => IndexDataView::Int16(v@),
            IndexData::Int32(v) => IndexDataView::Int32(v@),
            IndexData::Int64(v) => IndexDataView::Int64(v@),
            IndexData::StringTag(s) => IndexDataView::StringTag(s@),
            IndexData::Bin(v) => IndexDataView::Bin(v@),
            IndexData::StringArray(v) => IndexDataView::StringArray(strs_view(v@)),
            IndexData::I18NString(v) => IndexDataView::I18NString(strs_view(v@)),
        }
    }
}

// ---------------------------------------------------------------------------
// Wire type codes.
// ---------------------------------------------------------------------------

/// The wire type code of a data flavor.
pub open spec fn type_code(d: IndexDataView) -> u32 {
    match d {
        IndexDataView::Null => 0,
        IndexDataView::Char(_) => 1,
        IndexDataView::Int8(_) => 2,
        IndexDataView::Int16(_) => 3,
        IndexDataView::Int32(_) => 4,
        IndexDataView::Int64(_) => 5,
        IndexDataView::StringTag(_) => 6,
        IndexDataView::Bin(_) => 7,
        IndexDataView::StringArray(_) => 8,
        IndexDataView::I18NString(_) => 9,
    }
}

/// The empty skeleton of a wire type code, ready to be filled from the store.
pub open spec fn empty_of(code: u32) -> IndexDataView
    recommends
        code <= 9,
{
    if code == 0 {
        IndexDataView::Null
    } else if code == 1 {
        IndexDataView::Char(Seq::empty())
    } else if code == 2 {
        IndexDataView::Int8(Seq::empty())
    } else if code == 3 {
        IndexDataView::Int16(Seq::empty())
    } else if code == 4 {
        IndexDataView::Int32(Seq::empty())
    } else if code == 5 {
        IndexDataView::Int64(Seq::empty())
    } else if code == 6 {
        IndexDataView::StringTag(Seq::empty())
    } else if code == 7 {
        IndexDataView::Bin(Seq::empty())
    } else if code == 8 {
        IndexDataView::StringArray(Seq::empty())
    } else {
        IndexDataView::I18NString(Seq::empty())
    }
}

// ---------------------------------------------------------------------------
// Item counts.
// ---------------------------------------------------------------------------

/// The number of logical items a data value holds: the element count for
/// homogeneous flavors, byte length for Char and Bin, 1 for a single string,
/// 0 for Null.
pub open spec fn spec_item_count(d: IndexDataView) -> int {
    match d {
        IndexDataView::Null => 0,
        IndexDataView::Char(v) => v.len() as int,
        IndexDataView::Int8(v) => v.len() as int,
        IndexDataView::Int16(v) => v.len() as int,
        IndexDataView::Int32(v) => v.len() as int,
        IndexDataView::Int64(v) => v.len() as int,
        IndexDataView::StringTag(_) => 1,
        IndexDataView::Bin(v) => v.len() as int,
        IndexDataView::StringArray(v) => v.len() as int,
        IndexDataView::I18NString(v) => v.len() as int,
    }
}

// ---------------------------------------------------------------------------
// Store encoding.
// ---------------------------------------------------------------------------

/// The alignment that a data flavor's first byte must have within the store.
pub open spec fn align_of(d: IndexDataView) -> int {
    match d {
        IndexDataView::Int16(_) => 2,
        IndexDataView::Int32(_) => 4,
        IndexDataView::Int64(_) => 8,
        _ => 1,
    }
}

/// The number of zero bytes that bring a store of length `len` up to a
/// multiple of `a`.
pub open spec fn pad_len(len: int, a: int) -> int
    recommends
        a >= 1,
        len >= 0,
{
    (a - len % a) % a
}

/// The two's-complement bytes of a sequence of signed 8-bit items.
pub open spec fn enc_i8_items(v: Seq<i8>) -> Seq<u8> {
    v.map_values(|x: i8| as_unsigned8(x))
}

/// The concatenated big-endian encodings of signed 16-bit items.
pub open spec fn enc_i16_items(v: Seq<i16>) -> Seq<u8>
    decreases v.len(),
{
    if v.len() == 0 {
        Seq::empty()
    } else {
        enc_i16_items(v.drop_last()) + enc_i16(v.last())
    }
}

/// The concatenated big-endian encodings of signed 32-bit items.
pub open spec fn enc_i32_items(v: Seq<i32>) -> Seq<u8>
    decreases v.len(),
{
    if v.len() == 0 {
        Seq::empty()
    } else {
        enc_i32_items(v.drop_last()) + enc_i32(v.last())
    }
}

/// The concatenated big-endian encodings of signed 64-bit items.
pub open spec fn enc_i64_items(v: Seq<i64>) -> Seq<u8>
    decreases v.len(),
{
    if v.len() == 0 {
        Seq::empty()
    } else {
        enc_i64_items(v.drop_last()) + enc_i64(v.last())
    }
}

/// The UTF-8 bytes of a string followed by its NUL terminator.
pub open spec fn enc_cstr(s: Seq<char>) -> Seq<u8> {
    encode_utf8(s) + seq![0u8]
}

/// The concatenated NUL-terminated encodings of a list of strings.
pub open spec fn enc_cstrs(ss: Seq<Seq<char>>) -> Seq<u8>
    decreases ss.len(),
{
    if ss.len() == 0 {
        Seq::empty()
    } else {
        enc_cstrs(ss.drop_last()) + enc_cstr(ss.last())
    }
}

/// The store bytes of a data value, alignment padding excluded.
pub open spec fn encoded(d: IndexDataView) -> Seq<u8> {
    match d {
        IndexDataView::Null => Seq::empty(),
        IndexDataView::Char(v) => v,
        IndexDataView::Int8(v) => enc_i8_items(v),
        IndexDataView::Int16(v) => enc_i16_items(v),
        IndexDataView::Int32(v) => enc_i32_items(v),
        IndexDataView::Int64(v) => enc_i64_items(v),
        IndexDataView::StringTag(s) => enc_cstr(s),
        IndexDataView::Bin(v) => v,
        IndexDataView::StringArray(ss) => enc_cstrs(ss),
        IndexDataView::I18NString(ss) => enc_cstrs(ss),
    }
}

// ---------------------------------------------------------------------------
// Store decoding.
// ---------------------------------------------------------------------------

/// What a lossy UTF-8 decoder returns on invalid bytes: invalid sequences
/// become replacement characters, and the result depends on the bytes alone.
pub uninterp spec fn lossy_of(b: Seq<u8>) -> Seq<char>;

/// The result of lossy UTF-8 decoding: the exact UTF-8 decoding on valid
/// bytes, and on invalid bytes the replacement-character decoding, which is
/// only named.
pub open spec fn lossy_decode(b: Seq<u8>) -> Seq<char> {
    if valid_utf8(b) {
        decode_utf8(b)
    } else {
        lossy_of(b)
    }
}

/// Relies on String::from_utf8_lossy: its result is a function of the bytes
/// alone, and on valid UTF-8 it is exactly the UTF-8 decoding of the bytes.
#[verifier::external_body]
fn lossy_string(b: &[u8]) -> (r: String)
    ensures
        r@ == lossy_decode(b@),
        !valid_utf8(b@) ==> r@ == lossy_of(b@),
{
    String::from_utf8_lossy(b).into_owned()
}

/// The NUL-separated strings read from `store` starting at `p`: each element
/// runs up to the next NUL, which is skipped. Reading fails if no NUL is
/// left for an element.
pub open spec fn spec_fill_strs(store: Seq<u8>, p: int, count: nat) -> Option<Seq<Seq<char>>>
    recommends
        0 <= p <= store.len(),
    decreases count,
{
    if count == 0 {
        Some(Seq::empty())
    } else {
        let j = nul_from(store, p);
        if j >= store.len() {
            None
        } else {
            match spec_fill_strs(store, j + 1, (count - 1) as nat) {
                Some(rest) => Some(seq![lossy_decode(store.subrange(p, j))] + rest),
                None => None,
            }
        }
    }
}

/// The strings read for an i18n entry: each element runs up to the next NUL,
/// which is not skipped, so every element after the first NUL is empty.
pub open spec fn spec_fill_i18n(store: Seq<u8>, p: int, count: nat) -> Seq<Seq<char>>
    recommends
        0 <= p <= store.len(),
    decreases count,
{
    if count == 0 {
        Seq::empty()
    } else {
        let j = nul_from(store, p);
        seq![lossy_decode(store.subrange(p, j))] + spec_fill_i18n(store, j, (count - 1) as nat)
    }
}

/// The data value of wire type `code` read from `store` at `offset` with
/// `count` items, or nothing where the store ends (or the offset points
/// outside it) before the promised data.
pub open spec fn spec_fill(code: u32, store: Seq<u8>, offset: int, count: nat) -> Option<
    IndexDataView,
>
    recommends
        code <= 9,
{
    if !(0 <= offset <= store.len()) {
        None
    } else if code == 0 {
        Some(IndexDataView::Null)
    } else if code == 1 {
        if offset + count <= store.len() {
            Some(IndexDataView::Char(store.subrange(offset, offset + count)))
        } else {
            None
        }
    } else if code == 2 {
        if offset + count <= store.len() {
            Some(
                IndexDataView::Int8(
                    Seq::new(count, |i: int| as_signed8(store[offset + i])),
                ),
            )
        } else {
            None
        }
    } else if code == 3 {
        if offset + 2 * count <= store.len() {
            Some(
                IndexDataView::Int16(
                    Seq::new(
                        count,
                        |i: int| dec_i16(store.subrange(offset + 2 * i, offset + 2 * i + 2)),
                    ),
                ),
            )
        } else {
            None
        }
    } else if code == 4 {
        if offset + 4 * count <= store.len() {
            Some(
                IndexDataView::Int32(
                    Seq::new(
                        count,
                        |i: int| dec_i32(store.subrange(offset + 4 * i, offset + 4 * i + 4)),
                    ),
                ),
            )
        } else {
            None
        }
    } else if code == 5 {
        if offset + 8 * count <= store.len() {
            Some(
                IndexDataView::Int64(
                    Seq::new(
                        count,
                        |i: int| dec_i64(store.subrange(offset + 8 * i, offset + 8 * i + 8)),
                    ),
                ),
            )
        } else {
            None
        }
    } else if code == 6 {
        Some(IndexDataView::StringTag(lossy_decode(store.subrange(offset, nul_from(store, offset)))))
    } else if code == 7 {
        if offset + count <= store.len() {
            Some(IndexDataView::Bin(store.subrange(offset, offset + count)))
        } else {
            None
        }
    } else if code == 8 {
        match spec_fill_strs(store, offset, count) {
            Some(ss) => Some(IndexDataView::StringArray(ss)),
            None => None,
        }
    } else {
        Some(IndexDataView::I18NString(spec_fill_i18n(store, offset, count)))
    }
}

impl IndexData {
    /// Serializes the data into the growing store, first inserting the
    /// alignment padding its flavor asks for, and returns how many padding
    /// bytes were inserted.
    pub fn append(&self, store: &mut Vec<u8>) -> (alignment: u32)
        ensures
            alignment == pad_len(old(store)@.len() as int, align_of(self@)),
            final (store)@ == old(store)@ + zeros(alignment as int) + encoded(self@),
    {
        match self {
            IndexData::Null => {
                assert(store@ =~= old(store)@ + zeros(0) + encoded(self@));
                0
            },
            IndexData::Char(d) => {
                extend_bytes(store, d.as_slice());
                assert(store@ =~= old(store)@ + zeros(0) + encoded(self@));
                0
            },
            IndexData::Int8(d) => {
                let n = d.len();
                let mut i: usize = 0;
                while i < n
                    invariant
                        i <= n,
                        n == d@.len(),
                        store@ == old(store)@ + enc_i8_items(d@.take(i as int)),
                    decreases n - i,
                {
                    let x = d[i];
                    let b: u8 = if x < 0 {
                        ((x as i16) + 0x100) as u8
                    } else {
                        x as u8
                    };
                    store.push(b);
                    proof {
                        assert(d@.take(i + 1).map_values(|y: i8| as_unsigned8(y)) =~= d@.take(
                            i as int,
                        ).map_values(|y: i8| as_unsigned8(y)).push(as_unsigned8(d@[i as int])));
                        assert(store@ =~= old(store)@ + enc_i8_items(d@.take(i + 1)));
                    }
                    i = i + 1;
                }
                proof {
                    assert(d@.take(n as int) =~= d@);
                    assert(store@ =~= old(store)@ + zeros(0) + encoded(self@));
                }
                0
            },
            IndexData::Int16(d) => {
                let alignment = pad_to(store, 2);
                let ghost padded = store@;
                let n = d.len();
                let mut i: usize = 0;
                while i < n
                    invariant
                        i <= n,
                        n == d@.len(),
                        store@ == padded + enc_i16_items(d@.take(i as int)),
                    decreases n - i,
                {
                    push_i16(store, d[i]);
                    proof {
                        assert(d@.take(i + 1).drop_last() =~= d@.take(i as int));
                        assert(store@ =~= padded + enc_i16_items(d@.take(i + 1)));
                    }
                    i = i + 1;
                }
                proof {
                    assert(d@.take(n as int) =~= d@);
                    assert(store@ =~= old(store)@ + zeros(alignment as int) + encoded(self@));
                }
                alignment
            },
            IndexData::Int32(d) => {
                let alignment = pad_to(store, 4);
                let ghost padded = store@;
                let n = d.len();
                let mut i: usize = 0;
                while i < n
                    invariant
                        i <= n,
                        n == d@.len(),
                        store@ == padded + enc_i32_items(d@.take(i as int)),
                    decreases n - i,
                {
                    push_i32(store, d[i]);
                    proof {
                        assert(d@.take(i + 1).drop_last() =~= d@.take(i as int));
                        assert(store@ =~= padded + enc_i32_items(d@.take(i + 1)));
                    }
                    i = i + 1;
                }
                proof {
                    assert(d@.take(n as int) =~= d@);
                    assert(store@ =~= old(store)@ + zeros(alignment as int) + encoded(self@));
                }
                alignment
            },
            IndexData::Int64(d) => {
                let alignment = pad_to(store, 8);
                let ghost padded = store@;
                let n = d.len();
                let mut i: usize = 0;
                while i < n
                    invariant
                        i <= n,
                        n == d@.len(),
                        store@ == padded + enc_i64_items(d@.take(i as int)),
                    decreases n - i,
                {
                    push_i64(store, d[i]);
                    proof {
                        assert(d@.take(i + 1).drop_last() =~= d@.take(i as int));
                        assert(store@ =~= padded + enc_i64_items(d@.take(i + 1)));
                    }
                    i = i + 1;
                }
                proof {
                    assert(d@.take(n as int) =~= d@);
                    assert(store@ =~= old(store)@ + zeros(alignment as int) + encoded(self@));
                }
                alignment
            },
            IndexData::StringTag(s) => {
                extend_bytes(store, s.as_str().as_bytes());
                store.push(0u8);
                assert(store@ =~= old(store)@ + zeros(0) + encoded(self@));
                0
            },
            IndexData::Bin(d) => {
                extend_bytes(store, d.as_slice());
                assert(store@ =~= old(store)@ + zeros(0) + encoded(self@));
                0
            },
            IndexData::StringArray(d) => {
                append_cstrs(store, d);
                assert(store@ =~= old(store)@ + zeros(0) + encoded(self@));
                0
            },
            IndexData::I18NString(d) => {
                append_cstrs(store, d);
                assert(store@ =~= old(store)@ + zeros(0) + encoded(self@));
                0
            },
        }
    }

    /// The number of logical items this data value holds.
    pub fn num_items(&self) -> (n: u32)
        requires
            spec_item_count(self@) <= u32::MAX,
        ensures
            n == spec_item_count(self@),
    {
        match self {
            IndexData::Null => 0,
            IndexData::Bin(items) => items.len() as u32,
            IndexData::Char(items) => items.len() as u32,
            IndexData::I18NString(items) => items.len() as u32,
            IndexData::StringTag(_) => 1,
            IndexData::StringArray(items) => items.len() as u32,
            IndexData::Int8(items) => items.len() as u32,
            IndexData::Int16(items) => items.len() as u32,
            IndexData::Int32(items) => items.len() as u32,
            IndexData::Int64(items) => items.len() as u32,
        }
    }

    /// The empty skeleton for a wire type code, or nothing for an unknown
    /// code.
    pub fn from_u32(i: u32) -> (r: Option<IndexData>)
        ensures
            i <= 9 ==> (r matches Some(d) && d@ == empty_of(i)),
            i > 9 ==> r is None,
    {
        let r = match i {
            0u32 => Some(IndexData::Null),
            1u32 => Some(IndexData::Char(Vec::new())),
            2u32 => Some(IndexData::Int8(Vec::new())),
            3u32 => Some(IndexData::Int16(Vec::new())),
            4u32 => Some(IndexData::Int32(Vec::new())),
            5u32 => Some(IndexData::Int64(Vec::new())),
            6u32 => Some(IndexData::StringTag(String::new())),
            7u32 => Some(IndexData::Bin(Vec::new())),
            8u32 => Some(IndexData::StringArray(Vec::new())),
            9u32 => Some(IndexData::I18NString(Vec::new())),
            _ => None,
        };
        proof {
            if i <= 9 {
                assert(r matches Some(d) && d@ =~= empty_of(i));
            }
        }
        r
    }

    /// The wire type code of this data value.
    pub fn to_u32(&self) -> (r: u32)
        ensures
            r == type_code(self@),
    {
        match self {
            IndexData::Null => 0,
            IndexData::Char(_) => 1,
            IndexData::Int8(_) => 2,
            IndexData::Int16(_) => 3,
            IndexData::Int32(_) => 4,
            IndexData::Int64(_) => 5,
            IndexData::StringTag(_) => 6,
            IndexData::Bin(_) => 7,
            IndexData::StringArray(_) => 8,
            IndexData::I18NString(_) => 9,
        }
    }

    /// The display name of this data value's flavor, as diagnostics print it.
    pub fn kind_name(&self) -> (r: String)
        ensures
            r@ == spec_kind_name(self@),
    {
        match self {
            IndexData::Null => "Null".to_owned(),
            IndexData::Bin(_) => "Bin".to_owned(),
            IndexData::Char(_) => "Char".to_owned(),
            IndexData::I18NString(_) => "I18NString".to_owned(),
            IndexData::StringTag(_) => "String".to_owned(),
            IndexData::StringArray(_) => "StringArray".to_owned(),
            IndexData::Int8(_) => "i8".to_owned(),
            IndexData::Int16(_) => "i16".to_owned(),
            IndexData::Int32(_) => "i32".to_owned(),
            IndexData::Int64(_) => "i64".to_owned(),
        }
    }

    /// The string a single-string entry holds.
    pub fn as_str(&self) -> (r: Option<&str>)
        ensures
            match self@ {
                IndexDataView::StringTag(s) => r matches Some(x) && x@ == s,
                _ => r is None,
            },
    {
        match self {
            IndexData::StringTag(s) => Some(s.as_str()),
            _ => None,
        }
    }

    /// The first element of a 32-bit integer entry, if it has one.
    pub fn as_i32(&self) -> (r: Option<i32>)
        ensures
            match self@ {
                IndexDataView::Int32(v) => {
                    if v.len() > 0 {
                        r == Some(v[0])
                    } else {
                        r is None
                    }
                },
                _ => r is None,
            },
    {
        match self {
            IndexData::Int32(s) => {
                if s.len() > 0 {
                    Some(s[0])
                } else {
                    None
                }
            },
            _ => None,
        }
    }

    /// A copy of the elements of a 32-bit integer entry.
    pub fn as_i32_array(&self) -> (r: Option<Vec<i32>>)
        ensures
            match self@ {
                IndexDataView::Int32(v) => r matches Some(x) && x@ == v,
                _ => r is None,
            },
    {
        match self {
            IndexData::Int32(s) => {
                let n = s.len();
                let mut out: Vec<i32> = Vec::new();
                let mut i: usize = 0;
                while i < n
                    invariant
                        i <= n,
                        n == s@.len(),
                        out@ == s@.take(i as int),
                    decreases n - i,
                {
                    out.push(s[i]);
                    assert(out@ =~= s@.take(i + 1));
                    i = i + 1;
                }
                assert(out@ =~= s@);
                Some(out)
            },
            _ => None,
        }
    }

    /// The first element of a 64-bit integer entry, if it has one.
    pub fn as_i64(&self) -> (r: Option<i64>)
        ensures
            match self@ {
                IndexDataView::Int64(v) => {
                    if v.len() > 0 {
                        r == Some(v[0])
                    } else {
                        r is None
                    }
                },
                _ => r is None,
            },
    {
        match self {
            IndexData::Int64(s) => {
                if s.len() > 0 {
                    Some(s[0])
                } else {
                    None
                }
            },
            _ => None,
        }
    }

    /// The elements of a string-array or i18n-string entry.
    pub fn as_string_array(&self) -> (r: Option<&[String]>)
        ensures
            match self@ {
                IndexDataView::StringArray(ss) => r matches Some(x) && strs_view(x@) == ss,
                IndexDataView::I18NString(ss) => r matches Some(x) && strs_view(x@) == ss,
                _ => r is None,
            },
    {
        match self {
            IndexData::StringArray(d) => Some(d.as_slice()),
            IndexData::I18NString(d) => Some(d.as_slice()),
            _ => None,
        }
    }

    /// The bytes of a binary entry.
    pub fn as_binary(&self) -> (r: Option<&[u8]>)
        ensures
            match self@ {
                IndexDataView::Bin(v) => r matches Some(x) && x@ == v,
                _ => r is None,
            },
    {
        match self {
            IndexData::Bin(d) => Some(d.as_slice()),
            _ => None,
        }
    }

    /// Reads this skeleton's flavor out of the store at `offset` with
    /// `num_items` items, as the directory entry describes it.
    #[verifier::loop_isolation(false)]
    pub fn fill_from_store(&self, store: &[u8], offset: i32, num_items: u32) -> (r: Result<
        IndexData,
        RpmError,
    >)
        ensures
            match spec_fill(type_code(self@), store@, offset as int, num_items as nat) {
                Some(d) => r matches Ok(x) && x@ == d,
                None => r == Err::<IndexData, RpmError>(RpmError::ShortInput),
            },
    {
        let n = store.len();
        if offset < 0 {
            return Err(RpmError::ShortInput);
        }
        let off = offset as usize;
        if off > n {
            return Err(RpmError::ShortInput);
        }
        match self {
            IndexData::Null => Ok(IndexData::Null),
            IndexData::Char(_) => {
                match checked_end(off, num_items, 1, n) {
                    None => Err(RpmError::ShortInput),
                    Some(end) => Ok(
                        IndexData::Char(slice_to_vec(slice_subrange(store, off, end))),
                    ),
                }
            },
            IndexData::Bin(_) => {
                match checked_end(off, num_items, 1, n) {
                    None => Err(RpmError::ShortInput),
                    Some(end) => Ok(IndexData::Bin(slice_to_vec(slice_subrange(store, off, end)))),
                }
            },
            IndexData::Int8(_) => {
                match checked_end(off, num_items, 1, n) {
                    None => Err(RpmError::ShortInput),
                    Some(_) => {
                        let count = num_items as usize;
                        let mut out: Vec<i8> = Vec::new();
                        let mut i: usize = 0;
                        while i < count
                            invariant
                                i <= count,
                                off + count <= store@.len(),
                                n == store@.len(),
                                out@ == Seq::new(
                                    i as nat,
                                    |k: int| as_signed8(store@[off + k]),
                                ),
                            decreases count - i,
                        {
                            out.push(read_i8_at(store, off + i));
                            assert(out@ =~= Seq::new(
                                (i + 1) as nat,
                                |k: int| as_signed8(store@[off + k]),
                            ));
                            i = i + 1;
                        }
                        Ok(IndexData::Int8(out))
                    },
                }
            },
            IndexData::Int16(_) => {
                match checked_end(off, num_items, 2, n) {
                    None => Err(RpmError::ShortInput),
                    Some(_) => {
                        let count = num_items as usize;
                        let mut out: Vec<i16> = Vec::new();
                        let mut i: usize = 0;
                        while i < count
                            invariant
                                i <= count,
                                off + 2 * count <= store@.len(),
                                n == store@.len(),
                                out@ == Seq::new(
                                    i as nat,
                                    |k: int| dec_i16(store@.subrange(off + 2 * k, off + 2 * k + 2)),
                                ),
                            decreases count - i,
                        {
                            out.push(read_i16_at(store, off + 2 * i));
                            assert(out@ =~= Seq::new(
                                (i + 1) as nat,
                                |k: int| dec_i16(store@.subrange(off + 2 * k, off + 2 * k + 2)),
                            ));
                            i = i + 1;
                        }
                        Ok(IndexData::Int16(out))
                    },
                }
            },
            IndexData::Int32(_) => {
                match checked_end(off, num_items, 4, n) {
                    None => Err(RpmError::ShortInput),
                    Some(_) => {
                        let count = num_items as usize;
                        let mut out: Vec<i32> = Vec::new();
                        let mut i: usize = 0;
                        while i < count
                            invariant
                                i <= count,
                                off + 4 * count <= store@.len(),
                                n == store@.len(),
                                out@ == Seq::new(
                                    i as nat,
                                    |k: int| dec_i32(store@.subrange(off + 4 * k, off + 4 * k + 4)),
                                ),
                            decreases count - i,
                        {
                            out.push(read_i32_at(store, off + 4 * i));
                            assert(out@ =~= Seq::new(
                                (i + 1) as nat,
                                |k: int| dec_i32(store@.subrange(off + 4 * k, off + 4 * k + 4)),
                            ));
                            i = i + 1;
                        }
                        Ok(IndexData::Int32(out))
                    },
                }
            },
            IndexData::Int64(_) => {
                match checked_end(off, num_items, 8, n) {
                    None => Err(RpmError::ShortInput),
                    Some(_) => {
                        let count = num_items as usize;
                        let mut out: Vec<i64> = Vec::new();
                        let mut i: usize = 0;
                        while i < count
                            invariant
                                i <= count,
                                off + 8 * count <= store@.len(),
                                n == store@.len(),
                                out@ == Seq::new(
                                    i as nat,
                                    |k: int| dec_i64(store@.subrange(off + 8 * k, off + 8 * k + 8)),
                                ),
                            decreases count - i,
                        {
                            out.push(read_i64_at(store, off + 8 * i));
                            assert(out@ =~= Seq::new(
                                (i + 1) as nat,
                                |k: int| dec_i64(store@.subrange(off + 8 * k, off + 8 * k + 8)),
                            ));
                            i = i + 1;
                        }
                        Ok(IndexData::Int64(out))
                    },
                }
            },
            IndexData::StringTag(_) => {
                let j = find_nul(store, off);
                proof {
                    crate::bytes::lemma_nul_from_bounds(store@, off as int);
                }
                Ok(IndexData::StringTag(lossy_string(slice_subrange(store, off, j))))
            },
            IndexData::StringArray(_) => {
                let count = num_items as usize;
                let ghost total = spec_fill_strs(store@, off as int, count as nat);
                let mut out: Vec<String> = Vec::new();
                let mut p: usize = off;
                let mut k: usize = 0;
                while k < count
                    invariant
                        k <= count,
                        off <= p <= store@.len(),
                        total == spec_fill_strs(store@, off as int, count as nat),
                        match spec_fill_strs(store@, p as int, (count - k) as nat) {
                            Some(rest) => total == Some(strs_view(out@) + rest),
                            None => total is None,
                        },
                    decreases count - k,
                {
                    let j = find_nul(store, p);
                    proof {
                        crate::bytes::lemma_nul_from_bounds(store@, p as int);
                    }
                    if j >= store.len() {
                        return Err(RpmError::ShortInput);
                    }
                    let s = lossy_string(slice_subrange(store, p, j));
                    out.push(s);
                    proof {
                        assert(strs_view(out@) =~= strs_view(out@.drop_last()) + seq![
                            lossy_decode(store@.subrange(p as int, j as int)),
                        ]);
                        match spec_fill_strs(store@, j + 1, (count - k - 1) as nat) {
                            Some(r2) => {
                                assert(strs_view(out@) + r2 =~= strs_view(out@.drop_last())
                                    + (seq![lossy_decode(store@.subrange(p as int, j as int))] + r2));
                            },
                            None => {},
                        }
                    }
                    p = j + 1;
                    k = k + 1;
                }
                proof {
                    assert(spec_fill_strs(store@, p as int, 0) == Some(Seq::<Seq<char>>::empty()));
                    assert(strs_view(out@) + Seq::<Seq<char>>::empty() =~= strs_view(out@));
                }
                Ok(IndexData::StringArray(out))
            },
            IndexData::I18NString(_) => {
                let count = num_items as usize;
                let ghost total = spec_fill_i18n(store@, off as int, count as nat);
                let mut out: Vec<String> = Vec::new();
                let mut p: usize = off;
                let mut k: usize = 0;
                while k < count
                    invariant
                        k <= count,
                        off <= p <= store@.len(),
                        total == spec_fill_i18n(store@, off as int, count as nat),
                        total == strs_view(out@) + spec_fill_i18n(
                            store@,
                            p as int,
                            (count - k) as nat,
                        ),
                    decreases count - k,
                {
                    let j = find_nul(store, p);
                    proof {
                        crate::bytes::lemma_nul_from_bounds(store@, p as int);
                    }
                    let s = lossy_string(slice_subrange(store, p, j));
                    out.push(s);
                    proof {
                        assert(strs_view(out@) =~= strs_view(out@.drop_last()) + seq![
                            lossy_decode(store@.subrange(p as int, j as int)),
                        ]);
                        assert(strs_view(out@) + spec_fill_i18n(
                            store@,
                            j as int,
                            (count - k - 1) as nat,
                        ) =~= strs_view(out@.drop_last()) + (seq![
                            lossy_decode(store@.subrange(p as int, j as int)),
                        ] + spec_fill_i18n(store@, j as int, (count - k - 1) as nat)));
                    }
                    p = j;
                    k = k + 1;
                }
                proof {
                    assert(strs_view(out@) + Seq::<Seq<char>>::empty() =~= strs_view(out@));
                }
                Ok(IndexData::I18NString(out))
            },
        }
    }
}

/// The spelled-out flavor names that diagnostics print.
pub open spec fn spec_kind_name(d: IndexDataView) -> Seq<char> {
    match d {
        IndexDataView::Null => "Null"@,
        IndexDataView::Bin(_) => "Bin"@,
        IndexDataView::Char(_) => "Char"@,
        IndexDataView::I18NString(_) => "I18NString"@,
        IndexDataView::StringTag(_) => "String"@,
        IndexDataView::StringArray(_) => "StringArray"@,
        IndexDataView::Int8(_) => "i8"@,
        IndexDataView::Int16(_) => "i16"@,
        IndexDataView::Int32(_) => "i32"@,
        IndexDataView::Int64(_) => "i64"@,
    }
}

/// Pads the store with zero bytes up to a multiple of `a`, returning how
/// many bytes were pushed.
fn pad_to(store: &mut Vec<u8>, a: usize) -> (alignment: u32)
    requires
        a == 2 || a == 4 || a == 8,
    ensures
        alignment == pad_len(old(store)@.len() as int, a as int),
        final (store)@ == old(store)@ + zeros(alignment as int),
{
    let r = store.len() % a;
    let need: usize = if r == 0 {
        0
    } else {
        a - r
    };
    assert(need == pad_len(old(store)@.len() as int, a as int));
    crate::bytes::push_zeros(store, need);
    need as u32
}

/// Appends the NUL-terminated encodings of every string in `d`.
fn append_cstrs(store: &mut Vec<u8>, d: &Vec<String>)
    ensures
        final (store)@ == old(store)@ + enc_cstrs(strs_view(d@)),
{
    let n = d.len();
    let mut i: usize = 0;
    while i < n
        invariant
            i <= n,
            n == d@.len(),
            store@ == old(store)@ + enc_cstrs(strs_view(d@.take(i as int))),
        decreases n - i,
    {
        extend_bytes(store, d[i].as_str().as_bytes());
        store.push(0u8);
        proof {
            let ss1 = strs_view(d@.take(i + 1));
            assert(ss1.drop_last() =~= strs_view(d@.take(i as int)));
            assert(ss1.last() == d@[i as int]@);
            assert(store@ =~= old(store)@ + enc_cstrs(ss1));
        }
        i = i + 1;
    }
    assert(d@.take(n as int) =~= d@);
}

/// The exclusive end `off + count * size` when it stays within `n`.
fn checked_end(off: usize, count: u32, size: usize, n: usize) -> (r: Option<usize>)
    requires
        off <= n,
        1 <= size <= 8,
    ensures
        match r {
            Some(end) => end == off + count * size && end <= n,
            None => off + count * size > n,
        },
{
    proof {
        assert((count as u64) * (size as u64) <= 0xffffffffu64 * 8) by (nonlinear_arith)
            requires
                count <= 0xffffffffu64,
                size <= 8,
        ;
    }
    let prod: u64 = (count as u64) * (size as u64);
    if prod > ((n - off) as u64) {
        None
    } else {
        Some(off + (prod as usize))
    }
}

} // verus!

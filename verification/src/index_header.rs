//! The 16-byte fixed preamble in front of every header: magic, version,
//! reserved bytes, entry count and store length.

use vstd::prelude::*;
use crate::bytes::{dec_u32, enc_u32, read_u32_at, push_u32, zeros};
use crate::error::{RpmError, RpmErrorView};

verus! {

/// The fixed preamble that sizes the directory and the store.
#[derive(Debug, PartialEq, Eq)]
pub struct IndexHeader {
    /// The format's magic bytes.
    pub magic: [u8; 3],
    /// The format version, always 1.
    pub version: u8,
    /// The number of directory entries that follow.
    pub num_entries: u32,
    /// The byte length of the store that follows the directory; the 16-byte
    /// preamble and the directory itself are not counted.
    pub header_size: u32,
}

/// The mathematical shape of an [`IndexHeader`].
#[verifier::ext_equal]
pub ghost struct IndexHeaderView {
    pub magic: Seq<u8>,
    pub version: u8,
    pub num_entries: u32,
    pub header_size: u32,
}

impl View for IndexHeader {
    type V = IndexHeaderView;

    open spec fn view(&self) -> IndexHeaderView {
        IndexHeaderView {
            magic: self.magic@,
            version: self.version,
            num_entries: self.num_entries,
            header_size: self.header_size,
        }
    }
}

/// The 16 bytes of a preamble: magic, version, four reserved zero bytes,
/// entry count and store length, big-endian.
pub open spec fn index_header_bytes(h: IndexHeaderView) -> Seq<u8> {
    h.magic + seq![h.version] + zeros(4) + enc_u32(h.num_entries) + enc_u32(h.header_size)
}

/// The preamble 16 bytes describe, or the error that rejects them: a wrong
/// byte in the first two magic positions, or a version other than 1. The
/// third magic byte and the reserved bytes are not inspected.
pub open spec fn spec_parse_index_header(b: Seq<u8>) -> Result<IndexHeaderView, RpmErrorView>
    recommends
        b.len() == 16,
{
    if b[0] != 0x8e {
        Err(RpmErrorView::InvalidMagic { expected: 0x8e, actual: b[0], complete_input: b })
    } else if b[1] != 0xad {
        Err(RpmErrorView::InvalidMagic { expected: 0xad, actual: b[1], complete_input: b })
    } else if b[3] != 1 {
        Err(RpmErrorView::UnsupportedHeaderVersion(b[3]))
    } else {
        Ok(
            IndexHeaderView {
                magic: b.subrange(0, 3),
                version: 1,
                num_entries: dec_u32(b.subrange(8, 12)),
                header_size: dec_u32(b.subrange(12, 16)),
            },
        )
    }
}

impl IndexHeader {
    /// Parses the 16-byte preamble, checking the first two magic bytes and
    /// the version.
    pub fn parse(input: &[u8]) -> (r: Result<IndexHeader, RpmError>)
        requires
            input@.len() == 16,
        ensures
            match spec_parse_index_header(input@) {
                Ok(h) => r matches Ok(x) && x@ == h,
                Err(err) => r matches Err(x) && x@ == err,
            },
    {
        let b0 = input[0];
        if b0 != 0x8e {
            return Err(
                RpmError::InvalidMagic {
                    expected: 0x8e,
                    actual: b0,
                    complete_input: vstd::slice::slice_to_vec(input),
                },
            );
        }
        let b1 = input[1];
        if b1 != 0xad {
            return Err(
                RpmError::InvalidMagic {
                    expected: 0xad,
                    actual: b1,
                    complete_input: vstd::slice::slice_to_vec(input),
                },
            );
        }
        let b2 = input[2];
        let version = input[3];
        if version != 1 {
            return Err(RpmError::UnsupportedHeaderVersion(version));
        }
        let num_entries = read_u32_at(input, 8);
        let header_size = read_u32_at(input, 12);
        let r = IndexHeader { magic: [b0, b1, b2], version: 1, num_entries, header_size };
        proof {
            assert(r.magic@ =~= input@.subrange(0, 3));
        }
        Ok(r)
    }

    /// Writes the 16-byte preamble.
    pub fn write(&self, out: &mut Vec<u8>)
        requires
            self.magic@.len() == 3,
        ensures
            final (out)@ == old(out)@ + index_header_bytes(self@),
    {
        out.push(self.magic[0]);
        out.push(self.magic[1]);
        out.push(self.magic[2]);
        out.push(self.version);
        out.push(0u8);
        out.push(0u8);
        out.push(0u8);
        out.push(0u8);
        push_u32(out, self.num_entries);
        push_u32(out, self.header_size);
        assert(final (out)@ =~= old(out)@ + index_header_bytes(self@));
    }

    /// A fresh preamble with the format's magic and version.
    pub fn new(num_entries: u32, header_size: u32) -> (r: IndexHeader)
        ensures
            r@ == (IndexHeaderView {
                magic: seq![0x8eu8, 0xadu8, 0xe8u8],
                version: 1u8,
                num_entries,
                header_size,
            }),
    {
        let r = IndexHeader { magic: [0x8e, 0xad, 0xe8], version: 1, num_entries, header_size };
        proof {
            assert(r.magic@ =~= seq![0x8eu8, 0xadu8, 0xe8u8]);
        }
        r
    }
}

} // verus!

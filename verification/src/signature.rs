//! The signature-header specialization: the same structure with 8-byte
//! tail alignment on both read and write, and a stepwise builder for the
//! common digest-plus-signature entry set.

use vstd::prelude::*;
use crate::bytes::{push_zeros, zeros};
use crate::data::{IndexData, IndexDataView};
use crate::entry::{IndexEntry, IndexEntryView};
use crate::error::{RpmError, RpmErrorView};
use crate::header::{
    spec_from_entries, spec_header_bytes, spec_parse, store_after, views_of, Header, HeaderView,
};
use crate::tag::{IndexSignatureTag, Tag};

verus! {

/// The trailing zero bytes that bring a signature header's store length up
/// to a multiple of 8.
pub open spec fn sig_pad_len(header_size: u32) -> int {
    if header_size % 8 == 0 {
        0
    } else {
        8 - (header_size % 8)
    }
}

/// The full wire image of a signature header: the plain header bytes
/// followed by its tail padding.
pub open spec fn spec_signature_bytes<T: Tag>(h: HeaderView<T>) -> Seq<u8> {
    spec_header_bytes(h) + zeros(sig_pad_len(h.index_header.header_size))
}

/// What parsing a signature header yields: the header and the span of the
/// input it covers, padding included, or the error that rejects the input.
pub open spec fn spec_parse_signature<T: Tag>(input: Seq<u8>) -> Result<
    (HeaderView<T>, int),
    RpmErrorView,
> {
    match spec_parse::<T>(input) {
        Err(e) => Err(e),
        Ok((h, n)) => {
            let m = n + sig_pad_len(h.index_header.header_size);
            if m <= input.len() {
                Ok((h, m))
            } else {
                Err(RpmErrorView::ShortInput)
            }
        },
    }
}

impl Header<IndexSignatureTag> {
    /// Parses a signature header and discards the zero bytes that restore
    /// the stream to 8-byte alignment. Returns the header and the number of
    /// input bytes covered, padding included.
    pub fn parse_signature(input: &[u8]) -> (r: Result<
        (Header<IndexSignatureTag>, usize),
        RpmError,
    >)
        ensures
            match r {
                Ok(p) => spec_parse_signature::<IndexSignatureTag>(input@) matches Ok(q) && q.0
                    == p.0@ && q.1 == p.1 as int,
                Err(e) => spec_parse_signature::<IndexSignatureTag>(input@) matches Err(q) && q
                    == e@,
            },
    {
        let (result, n) = match Self::parse(input) {
            Ok(p) => p,
            Err(e) => {
                return Err(e);
            },
        };
        let modulo = result.index_header.header_size % 8;
        if modulo > 0 {
            let align_size = (8 - modulo) as usize;
            if align_size > input.len() - n {
                return Err(RpmError::ShortInput);
            }
            Ok((result, n + align_size))
        } else {
            Ok((result, n))
        }
    }

    /// Writes the header and then the zero bytes that restore 8-byte
    /// alignment.
    pub fn write_signature(&self, out: &mut Vec<u8>)
        ensures
            final (out)@ == old(out)@ + spec_signature_bytes(self@),
    {
        self.write(out);
        let modulo = self.index_header.header_size % 8;
        if modulo > 0 {
            push_zeros(out, (8 - modulo) as usize);
        }
        assert(final (out)@ =~= old(out)@ + spec_signature_bytes(self@));
    }
}

// ---------------------------------------------------------------------------
// The stepwise builder for the common digest-plus-signature entry set.
// ---------------------------------------------------------------------------

/// Builder stage: nothing supplied yet.
pub struct Empty;

/// Builder stage: digests supplied.
pub struct WithDigest;

/// Builder stage: digests and signatures supplied.
pub struct WithSignature;

/// Accumulates the signature header's entries stage by stage, so that
/// `build` is only reachable once both the digests and the signatures have
/// been supplied.
pub struct SignatureHeaderBuilder<S> {
    pub entries: Vec<IndexEntry<IndexSignatureTag>>,
    pub stage: S,
}

impl<S> View for SignatureHeaderBuilder<S> {
    type V = Seq<IndexEntryView<IndexSignatureTag>>;

    open spec fn view(&self) -> Seq<IndexEntryView<IndexSignatureTag>> {
        views_of(self.entries@)
    }
}

/// The MD5 entry the builder records.
pub open spec fn md5_entry(md5sum: Seq<u8>) -> IndexEntryView<IndexSignatureTag> {
    IndexEntryView {
        tag: IndexSignatureTag::RPMSIGTAG_MD5,
        data: IndexDataView::Bin(md5sum),
        offset: 0,
        num_items: md5sum.len() as u32,
    }
}

/// The SHA-1 entry the builder records.
pub open spec fn sha1_entry(sha1: Seq<char>) -> IndexEntryView<IndexSignatureTag> {
    IndexEntryView {
        tag: IndexSignatureTag::RPMSIGTAG_SHA1,
        data: IndexDataView::StringTag(sha1),
        offset: 0,
        num_items: 1,
    }
}

/// The header-spanning RSA signature entry the builder records.
pub open spec fn rsa_entry(sig: Seq<u8>) -> IndexEntryView<IndexSignatureTag> {
    IndexEntryView {
        tag: IndexSignatureTag::RPMSIGTAG_RSA,
        data: IndexDataView::Bin(sig),
        offset: 0,
        num_items: sig.len() as u32,
    }
}

/// The header-and-archive-spanning PGP signature entry the builder records.
pub open spec fn pgp_entry(sig: Seq<u8>) -> IndexEntryView<IndexSignatureTag> {
    IndexEntryView {
        tag: IndexSignatureTag::RPMSIGTAG_PGP,
        data: IndexDataView::Bin(sig),
        offset: 0,
        num_items: sig.len() as u32,
    }
}

/// The size entry that `build` prepends.
pub open spec fn size_entry(size: i32) -> IndexEntryView<IndexSignatureTag> {
    IndexEntryView {
        tag: IndexSignatureTag::RPMSIGTAG_SIZE,
        data: IndexDataView::Int32(seq![size]),
        offset: 0,
        num_items: 1,
    }
}

impl SignatureHeaderBuilder<Empty> {
    /// A builder with nothing supplied.
    pub fn new() -> (r: SignatureHeaderBuilder<Empty>)
        ensures
            r@ == Seq::<IndexEntryView<IndexSignatureTag>>::empty(),
    {
        let r = SignatureHeaderBuilder { entries: Vec::new(), stage: Empty };
        proof {
            assert(r@ =~= Seq::<IndexEntryView<IndexSignatureTag>>::empty());
        }
        r
    }

    /// Records the SHA-1 and MD5 digests.
    pub fn add_digest(self, sha1: &str, md5sum: &[u8]) -> (r: SignatureHeaderBuilder<WithDigest>)
        requires
            md5sum@.len() <= u32::MAX,
        ensures
            r@ == self@ + seq![md5_entry(md5sum@), sha1_entry(sha1@)],
    {
        let mut entries = self.entries;
        entries.push(
            IndexEntry::new(
                IndexSignatureTag::RPMSIGTAG_MD5,
                0,
                IndexData::Bin(vstd::slice::slice_to_vec(md5sum)),
            ),
        );
        entries.push(
            IndexEntry::new(
                IndexSignatureTag::RPMSIGTAG_SHA1,
                0,
                IndexData::StringTag(sha1.to_owned()),
            ),
        );
        let r = SignatureHeaderBuilder { entries, stage: WithDigest };
        proof {
            assert(r@ =~= views_of(self.entries@) + seq![md5_entry(md5sum@), sha1_entry(sha1@)]);
        }
        r
    }
}

impl SignatureHeaderBuilder<WithDigest> {
    /// Records the RSA signature spanning the header and the PGP signature
    /// spanning the header and the archive.
    pub fn add_signature(
        self,
        rsa_spanning_header: &[u8],
        rsa_spanning_header_and_archive: &[u8],
    ) -> (r: SignatureHeaderBuilder<WithSignature>)
        requires
            rsa_spanning_header@.len() <= u32::MAX,
            rsa_spanning_header_and_archive@.len() <= u32::MAX,
        ensures
            r@ == self@ + seq![
                rsa_entry(rsa_spanning_header@),
                pgp_entry(rsa_spanning_header_and_archive@),
            ],
    {
        let mut entries = self.entries;
        entries.push(
            IndexEntry::new(
                IndexSignatureTag::RPMSIGTAG_RSA,
                0,
                IndexData::Bin(vstd::slice::slice_to_vec(rsa_spanning_header)),
            ),
        );
        entries.push(
            IndexEntry::new(
                IndexSignatureTag::RPMSIGTAG_PGP,
                0,
                IndexData::Bin(vstd::slice::slice_to_vec(rsa_spanning_header_and_archive)),
            ),
        );
        let r = SignatureHeaderBuilder { entries, stage: WithSignature };
        proof {
            assert(r@ =~= views_of(self.entries@) + seq![
                rsa_entry(rsa_spanning_header@),
                pgp_entry(rsa_spanning_header_and_archive@),
            ]);
        }
        r
    }
}

impl SignatureHeaderBuilder<WithSignature> {
    /// Emits the size entry in front of the recorded entries and
    /// synthesizes the signature header around them.
    pub fn build(self, size: i32) -> (r: Header<IndexSignatureTag>)
        requires
            self@.len() + 2 <= u32::MAX,
            16 * (self@.len() + 2) <= 0x80000000,
            store_after(
                seq![size_entry(size)] + self@,
                self@.len() as int + 1,
            ).len() + 16 <= i32::MAX,
        ensures
            r@ == spec_from_entries(
                seq![size_entry(size)] + self@,
                IndexSignatureTag::HEADER_SIGNATURES,
            ),
    {
        let mut all: Vec<IndexEntry<IndexSignatureTag>> = Vec::new();
        let mut size_items: Vec<i32> = Vec::new();
        size_items.push(size);
        all.push(
            IndexEntry::new(IndexSignatureTag::RPMSIGTAG_SIZE, 0, IndexData::Int32(size_items)),
        );
        let mut rest = self.entries;
        all.append(&mut rest);
        proof {
            assert(views_of(all@) =~= seq![size_entry(size)] + views_of(self.entries@));
        }
        Header::from_entries(all, IndexSignatureTag::HEADER_SIGNATURES)
    }
}

impl Header<IndexSignatureTag> {
    /// A fresh builder for the common digest-plus-signature entry set.
    pub fn builder() -> (r: SignatureHeaderBuilder<Empty>)
        ensures
            r@ == Seq::<IndexEntryView<IndexSignatureTag>>::empty(),
    {
        SignatureHeaderBuilder::new()
    }

    /// Creates a full signature header from the digests and signatures:
    /// the size entry, both digests and both signatures, passed through the
    /// synthesis path with the signature-region sentinel.
    pub fn new_signature_header(
        size: i32,
        md5sum: &[u8],
        sha1: String,
        rsa_spanning_header: &[u8],
        rsa_spanning_header_and_archive: &[u8],
    ) -> (r: Header<IndexSignatureTag>)
        requires
            md5sum@.len() <= u32::MAX,
            rsa_spanning_header@.len() <= u32::MAX,
            rsa_spanning_header_and_archive@.len() <= u32::MAX,
            store_after(
                seq![
                    size_entry(size),
                    md5_entry(md5sum@),
                    sha1_entry(sha1@),
                    rsa_entry(rsa_spanning_header@),
                    pgp_entry(rsa_spanning_header_and_archive@),
                ],
                5,
            ).len() + 16 <= i32::MAX,
        ensures
            r@ == spec_from_entries(
                seq![
                    size_entry(size),
                    md5_entry(md5sum@),
                    sha1_entry(sha1@),
                    rsa_entry(rsa_spanning_header@),
                    pgp_entry(rsa_spanning_header_and_archive@),
                ],
                IndexSignatureTag::HEADER_SIGNATURES,
            ),
    {
        let builder = SignatureHeaderBuilder::new().add_digest(sha1.as_str(), md5sum)
            .add_signature(rsa_spanning_header, rsa_spanning_header_and_archive);
        proof {
            assert(builder@ =~= seq![
                md5_entry(md5sum@),
                sha1_entry(sha1@),
                rsa_entry(rsa_spanning_header@),
                pgp_entry(rsa_spanning_header_and_archive@),
            ]);
            assert(seq![size_entry(size)] + builder@ =~= seq![
                size_entry(size),
                md5_entry(md5sum@),
                sha1_entry(sha1@),
                rsa_entry(rsa_spanning_header@),
                pgp_entry(rsa_spanning_header_and_archive@),
            ]);
        }
        builder.build(size)
    }
}

} // verus!

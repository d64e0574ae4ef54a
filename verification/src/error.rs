//! The errors the codec surfaces. All of them propagate to the caller;
//! nothing is retried or recovered internally.

use vstd::prelude::*;

verus! {

/// A failure while parsing, synthesizing or reading a header.
#[derive(Debug, PartialEq, Eq)]
pub enum RpmError {
    /// One of the first two magic bytes disagrees with the format.
    InvalidMagic { expected: u8, actual: u8, complete_input: Vec<u8> },
    /// The version byte is not 1.
    UnsupportedHeaderVersion(u8),
    /// A directory tag number that the tag enumeration does not name.
    InvalidTag { raw_tag: u32, store_type: String },
    /// A directory type code outside the ten known data flavors.
    InvalidTagDataType { raw_data_type: u32, store_type: String },
    /// A typed accessor found no entry with the requested tag.
    TagNotFound(String),
    /// A typed accessor found an entry of another data flavor.
    UnexpectedTagDataType { expected_data_type: String, actual_data_type: String, tag: String },
    /// A directory index pointing past the directory-name list.
    InvalidTagIndex { tag: String, index: u32, bound: u32 },
    /// The input ended, or an entry pointed outside the store, before the
    /// data it promised.
    ShortInput,
}

/// The mathematical shape of an [`RpmError`].
#[verifier::ext_equal]
pub ghost enum RpmErrorView {
    InvalidMagic { expected: u8, actual: u8, complete_input: Seq<u8> },
    UnsupportedHeaderVersion(u8),
    InvalidTag { raw_tag: u32, store_type: Seq<char> },
    InvalidTagDataType { raw_data_type: u32, store_type: Seq<char> },
    TagNotFound(Seq<char>),
    UnexpectedTagDataType {
        expected_data_type: Seq<char>,
        actual_data_type: Seq<char>,
        tag: Seq<char>,
    },
    InvalidTagIndex { tag: Seq<char>, index: u32, bound: u32 },
    ShortInput,
}

impl View for RpmError {
    type V = RpmErrorView;

    open spec fn view(&self) -> RpmErrorView {
        match self {
            RpmError::InvalidMagic { expected, actual, complete_input } => {
                RpmErrorView::InvalidMagic {
                    expected: *expected,
                    actual: *actual,
                    complete_input: complete_input@,
                }
            },
            RpmError::UnsupportedHeaderVersion(v) => RpmErrorView::UnsupportedHeaderVersion(*v),
            RpmError::InvalidTag { raw_tag, store_type } => {
                RpmErrorView::InvalidTag { raw_tag: *raw_tag, store_type: store_type@ }
            },
            RpmError::InvalidTagDataType { raw_data_type, store_type } => {
                RpmErrorView::InvalidTagDataType {
                    raw_data_type: *raw_data_type,
                    store_type: store_type@,
                }
            },
            RpmError::TagNotFound(t) => RpmErrorView::TagNotFound(t@),
            RpmError::UnexpectedTagDataType { expected_data_type, actual_data_type, tag } => {
                RpmErrorView::UnexpectedTagDataType {
                    expected_data_type: expected_data_type@,
                    actual_data_type: actual_data_type@,
                    tag: tag@,
                }
            },
            RpmError::InvalidTagIndex { tag, index, bound } => {
                RpmErrorView::InvalidTagIndex { tag: tag@, index: *index, bound: *bound }
            },
            RpmError::ShortInput => RpmErrorView::ShortInput,
        }
    }
}

} // verus!

//! The tag enumerations that name header entries.
//!
//! The codec is generic over any enumeration with a total mapping to wire
//! numbers and a partial mapping back; the two concrete enumerations cover
//! the tags that the typed accessors and the signature builder use.

use vstd::prelude::*;

verus! {

/// A header tag enumeration: a bidirectional mapping between enumeration
/// values and the 32-bit tag numbers on the wire, plus display names for
/// diagnostics.
pub trait Tag: Sized + Copy {
    /// The enumeration value of a wire tag number, if it names one.
    spec fn spec_from_u32(v: u32) -> Option<Self>;

    /// The wire tag number of an enumeration value.
    spec fn spec_to_u32(self) -> u32;

    /// The display name of an enumeration value.
    spec fn spec_name(self) -> Seq<char>;

    /// The display name of the enumeration itself.
    spec fn spec_enum_name() -> Seq<char>;

    /// Reading back the wire number of a value yields that value.
    proof fn lemma_from_to(self)
        ensures
            Self::spec_from_u32(self.spec_to_u32()) == Some(self),
    ;

    /// A wire number that names a value is that value's wire number.
    proof fn lemma_to_from(v: u32)
        ensures
            Self::spec_from_u32(v) matches Some(t) ==> t.spec_to_u32() == v,
    ;

    fn from_u32(v: u32) -> (r: Option<Self>)
        ensures
            r == Self::spec_from_u32(v),
    ;

    fn to_u32(self) -> (r: u32)
        ensures
            r == self.spec_to_u32(),
    ;

    fn name(self) -> (r: String)
        ensures
            r@ == self.spec_name(),
    ;

    fn enum_name() -> (r: String)
        ensures
            r@ == Self::spec_enum_name(),
    ;

    fn tag_eq(self, other: Self) -> (r: bool)
        ensures
            r == (self == other),
    ;
}

/// Tags of the main index header that the typed accessors read, along with
/// the immutable-region sentinel.
#[derive(Clone, Copy, Debug, PartialEq, Eq, Structural)]
#[allow(non_camel_case_types)]
pub enum IndexTag {
    HEADER_IMMUTABLE,
    RPMTAG_NAME,
    RPMTAG_VERSION,
    RPMTAG_RELEASE,
    RPMTAG_EPOCH,
    RPMTAG_INSTALLTIME,
    RPMTAG_ARCH,
    RPMTAG_FILEDIGESTS,
    RPMTAG_DIRINDEXES,
    RPMTAG_BASENAMES,
    RPMTAG_DIRNAMES,
    RPMTAG_PAYLOADFORMAT,
    RPMTAG_PAYLOADCOMPRESSOR,
}

impl Tag for IndexTag {
    open spec fn spec_from_u32(v: u32) -> Option<IndexTag> {
        match v {
            63u32 => Some(IndexTag::HEADER_IMMUTABLE),
            1000u32 => Some(IndexTag::RPMTAG_NAME),
            1001u32 => Some(IndexTag::RPMTAG_VERSION),
            1002u32 => Some(IndexTag::RPMTAG_RELEASE),
            1003u32 => Some(IndexTag::RPMTAG_EPOCH),
            1008u32 => Some(IndexTag::RPMTAG_INSTALLTIME),
            1022u32 => Some(IndexTag::RPMTAG_ARCH),
            1035u32 => Some(IndexTag::RPMTAG_FILEDIGESTS),
            1116u32 => Some(IndexTag::RPMTAG_DIRINDEXES),
            1117u32 => Some(IndexTag::RPMTAG_BASENAMES),
            1118u32 => Some(IndexTag::RPMTAG_DIRNAMES),
            1124u32 => Some(IndexTag::RPMTAG_PAYLOADFORMAT),
            1125u32 => Some(IndexTag::RPMTAG_PAYLOADCOMPRESSOR),
            _ => None,
        }
    }

    open spec fn spec_to_u32(self) -> u32 {
        match self {
            IndexTag::HEADER_IMMUTABLE => 63u32,
            IndexTag::RPMTAG_NAME => 1000u32,
            IndexTag::RPMTAG_VERSION => 1001u32,
            IndexTag::RPMTAG_RELEASE => 1002u32,
            IndexTag::RPMTAG_EPOCH => 1003u32,
            IndexTag::RPMTAG_INSTALLTIME => 1008u32,
            IndexTag::RPMTAG_ARCH => 1022u32,
            IndexTag::RPMTAG_FILEDIGESTS => 1035u32,
            IndexTag::RPMTAG_DIRINDEXES => 1116u32,
            IndexTag::RPMTAG_BASENAMES => 1117u32,
            IndexTag::RPMTAG_DIRNAMES => 1118u32,
            IndexTag::RPMTAG_PAYLOADFORMAT => 1124u32,
            IndexTag::RPMTAG_PAYLOADCOMPRESSOR => 1125u32,
        }
    }

    open spec fn spec_name(self) -> Seq<char> {
        match self {
            IndexTag::HEADER_IMMUTABLE => "HEADER_IMMUTABLE"@,
            IndexTag::RPMTAG_NAME => "RPMTAG_NAME"@,
            IndexTag::RPMTAG_VERSION => "RPMTAG_VERSION"@,
            IndexTag::RPMTAG_RELEASE => "RPMTAG_RELEASE"@,
            IndexTag::RPMTAG_EPOCH => "RPMTAG_EPOCH"@,
            IndexTag::RPMTAG_INSTALLTIME => "RPMTAG_INSTALLTIME"@,
            IndexTag::RPMTAG_ARCH => "RPMTAG_ARCH"@,
            IndexTag::RPMTAG_FILEDIGESTS => "RPMTAG_FILEDIGESTS"@,
            IndexTag::RPMTAG_DIRINDEXES => "RPMTAG_DIRINDEXES"@,
            IndexTag::RPMTAG_BASENAMES => "RPMTAG_BASENAMES"@,
            IndexTag::RPMTAG_DIRNAMES => "RPMTAG_DIRNAMES"@,
            IndexTag::RPMTAG_PAYLOADFORMAT => "RPMTAG_PAYLOADFORMAT"@,
            IndexTag::RPMTAG_PAYLOADCOMPRESSOR => "RPMTAG_PAYLOADCOMPRESSOR"@,
        }
    }

    open spec fn spec_enum_name() -> Seq<char> {
        "IndexTag"@
    }

    proof fn lemma_from_to(self) {
    }

    proof fn lemma_to_from(v: u32) {
    }

    fn from_u32(v: u32) -> (r: Option<IndexTag>) {
        match v {
            63u32 => Some(IndexTag::HEADER_IMMUTABLE),
            1000u32 => Some(IndexTag::RPMTAG_NAME),
            1001u32 => Some(IndexTag::RPMTAG_VERSION),
            1002u32 => Some(IndexTag::RPMTAG_RELEASE),
            1003u32 => Some(IndexTag::RPMTAG_EPOCH),
            1008u32 => Some(IndexTag::RPMTAG_INSTALLTIME),
            1022u32 => Some(IndexTag::RPMTAG_ARCH),
            1035u32 => Some(IndexTag::RPMTAG_FILEDIGESTS),
            1116u32 => Some(IndexTag::RPMTAG_DIRINDEXES),
            1117u32 => Some(IndexTag::RPMTAG_BASENAMES),
            1118u32 => Some(IndexTag::RPMTAG_DIRNAMES),
            1124u32 => Some(IndexTag::RPMTAG_PAYLOADFORMAT),
            1125u32 => Some(IndexTag::RPMTAG_PAYLOADCOMPRESSOR),
            _ => None,
        }
    }

    fn to_u32(self) -> (r: u32) {
        match self {
            IndexTag::HEADER_IMMUTABLE => 63u32,
            IndexTag::RPMTAG_NAME => 1000u32,
            IndexTag::RPMTAG_VERSION => 1001u32,
            IndexTag::RPMTAG_RELEASE => 1002u32,
            IndexTag::RPMTAG_EPOCH => 1003u32,
            IndexTag::RPMTAG_INSTALLTIME => 1008u32,
            IndexTag::RPMTAG_ARCH => 1022u32,
            IndexTag::RPMTAG_FILEDIGESTS => 1035u32,
            IndexTag::RPMTAG_DIRINDEXES => 1116u32,
            IndexTag::RPMTAG_BASENAMES => 1117u32,
            IndexTag::RPMTAG_DIRNAMES => 1118u32,
            IndexTag::RPMTAG_PAYLOADFORMAT => 1124u32,
            IndexTag::RPMTAG_PAYLOADCOMPRESSOR => 1125u32,
        }
    }

    fn name(self) -> (r: String) {
        match self {
            IndexTag::HEADER_IMMUTABLE => "HEADER_IMMUTABLE".to_owned(),
            IndexTag::RPMTAG_NAME => "RPMTAG_NAME".to_owned(),
            IndexTag::RPMTAG_VERSION => "RPMTAG_VERSION".to_owned(),
            IndexTag::RPMTAG_RELEASE => "RPMTAG_RELEASE".to_owned(),
            IndexTag::RPMTAG_EPOCH => "RPMTAG_EPOCH".to_owned(),
            IndexTag::RPMTAG_INSTALLTIME => "RPMTAG_INSTALLTIME".to_owned(),
            IndexTag::RPMTAG_ARCH => "RPMTAG_ARCH".to_owned(),
            IndexTag::RPMTAG_FILEDIGESTS => "RPMTAG_FILEDIGESTS".to_owned(),
            IndexTag::RPMTAG_DIRINDEXES => "RPMTAG_DIRINDEXES".to_owned(),
            IndexTag::RPMTAG_BASENAMES => "RPMTAG_BASENAMES".to_owned(),
            IndexTag::RPMTAG_DIRNAMES => "RPMTAG_DIRNAMES".to_owned(),
            IndexTag::RPMTAG_PAYLOADFORMAT => "RPMTAG_PAYLOADFORMAT".to_owned(),
            IndexTag::RPMTAG_PAYLOADCOMPRESSOR => "RPMTAG_PAYLOADCOMPRESSOR".to_owned(),
        }
    }

    fn enum_name() -> (r: String) {
        "IndexTag".to_owned()
    }

    fn tag_eq(self, other: Self) -> (r: bool) {
        self == other
    }
}

/// Tags of the signature header that the builder emits, along with the
/// signature-region sentinel.
#[derive(Clone, Copy, Debug, PartialEq, Eq, Structural)]
#[allow(non_camel_case_types)]
pub enum IndexSignatureTag {
    HEADER_SIGNATURES,
    RPMSIGTAG_RSA,
    RPMSIGTAG_SHA1,
    RPMSIGTAG_SIZE,
    RPMSIGTAG_PGP,
    RPMSIGTAG_MD5,
}

impl Tag for IndexSignatureTag {
    open spec fn spec_from_u32(v: u32) -> Option<IndexSignatureTag> {
        match v {
            62u32 => Some(IndexSignatureTag::HEADER_SIGNATURES),
            268u32 => Some(IndexSignatureTag::RPMSIGTAG_RSA),
            269u32 => Some(IndexSignatureTag::RPMSIGTAG_SHA1),
            1000u32 => Some(IndexSignatureTag::RPMSIGTAG_SIZE),
            1002u32 => Some(IndexSignatureTag::RPMSIGTAG_PGP),
            1004u32 => Some(IndexSignatureTag::RPMSIGTAG_MD5),
            _ => None,
        }
    }

    open spec fn spec_to_u32(self) -> u32 {
        match self {
            IndexSignatureTag::HEADER_SIGNATURES => 62u32,
            IndexSignatureTag::RPMSIGTAG_RSA => 268u32,
            IndexSignatureTag::RPMSIGTAG_SHA1 => 269u32,
            IndexSignatureTag::RPMSIGTAG_SIZE => 1000u32,
            IndexSignatureTag::RPMSIGTAG_PGP => 1002u32,
            IndexSignatureTag::RPMSIGTAG_MD5 => 1004u32,
        }
    }

    open spec fn spec_name(self) -> Seq<char> {
        match self {
            IndexSignatureTag::HEADER_SIGNATURES => "HEADER_SIGNATURES"@,
            IndexSignatureTag::RPMSIGTAG_RSA => "RPMSIGTAG_RSA"@,
            IndexSignatureTag::RPMSIGTAG_SHA1 => "RPMSIGTAG_SHA1"@,
            IndexSignatureTag::RPMSIGTAG_SIZE => "RPMSIGTAG_SIZE"@,
            IndexSignatureTag::RPMSIGTAG_PGP => "RPMSIGTAG_PGP"@,
            IndexSignatureTag::RPMSIGTAG_MD5 => "RPMSIGTAG_MD5"@,
        }
    }

    open spec fn spec_enum_name() -> Seq<char> {
        "IndexSignatureTag"@
    }

    proof fn lemma_from_to(self) {
    }

    proof fn lemma_to_from(v: u32) {
    }

    fn from_u32(v: u32) -> (r: Option<IndexSignatureTag>) {
        match v {
            62u32 => Some(IndexSignatureTag::HEADER_SIGNATURES),
            268u32 => Some(IndexSignatureTag::RPMSIGTAG_RSA),
            269u32 => Some(IndexSignatureTag::RPMSIGTAG_SHA1),
            1000u32 => Some(IndexSignatureTag::RPMSIGTAG_SIZE),
            1002u32 => Some(IndexSignatureTag::RPMSIGTAG_PGP),
            1004u32 => Some(IndexSignatureTag::RPMSIGTAG_MD5),
            _ => None,
        }
    }

    fn to_u32(self) -> (r: u32) {
        match self {
            IndexSignatureTag::HEADER_SIGNATURES => 62u32,
            IndexSignatureTag::RPMSIGTAG_RSA => 268u32,
            IndexSignatureTag::RPMSIGTAG_SHA1 => 269u32,
            IndexSignatureTag::RPMSIGTAG_SIZE => 1000u32,
            IndexSignatureTag::RPMSIGTAG_PGP => 1002u32,
            IndexSignatureTag::RPMSIGTAG_MD5 => 1004u32,
        }
    }

    fn name(self) -> (r: String) {
        match self {
            IndexSignatureTag::HEADER_SIGNATURES => "HEADER_SIGNATURES".to_owned(),
            IndexSignatureTag::RPMSIGTAG_RSA => "RPMSIGTAG_RSA".to_owned(),
            IndexSignatureTag::RPMSIGTAG_SHA1 => "RPMSIGTAG_SHA1".to_owned(),
            IndexSignatureTag::RPMSIGTAG_SIZE => "RPMSIGTAG_SIZE".to_owned(),
            IndexSignatureTag::RPMSIGTAG_PGP => "RPMSIGTAG_PGP".to_owned(),
            IndexSignatureTag::RPMSIGTAG_MD5 => "RPMSIGTAG_MD5".to_owned(),
        }
    }

    fn enum_name() -> (r: String) {
        "IndexSignatureTag".to_owned()
    }

    fn tag_eq(self, other: Self) -> (r: bool) {
        self == other
    }
}

} // verus!

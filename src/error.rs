use vstd::prelude::*;

verus! {

/// The layer of a partition-table image whose decoding failed.
#[derive(Debug, Clone, Copy, PartialEq, Eq)]
pub enum ImageLayer {
    KeyBlock,
    Header,
    Body,
}

/// The enumeration whose stored value is not one of its variants.
#[derive(Debug, Clone, Copy, PartialEq, Eq)]
pub enum EnumKind {
    ImageType,
    SectionType,
    XipPageRemapSize,
    EncryptionAlgo,
    HashAlgo,
    PartitionType,
    KeyExportOp,
}

/// Why an operation's preconditions do not hold.
#[derive(Debug, Clone, Copy, PartialEq, Eq)]
pub enum StateIssue {
    /// A partition table must hold at least the boot record.
    EmptyPartitionTable,
    /// A flash image needs a partition-table partition.
    MissingPartitionTable,
    /// A flash image needs a system-data partition.
    MissingSystemPartition,
    /// The partition table names a partition that the flash does not hold.
    MissingPartition,
    /// The output already runs past the offset where a partition starts.
    PositionPastTarget,
    /// A signature does not have the length of the field it goes into.
    SignatureLength,
    /// A length or offset does not fit the machine's integers.
    SizeOverflow,
    /// The signature of this image is keyed, and no key was given.
    MissingKey,
    /// A stored length is smaller than the header that it counts.
    LengthTooSmall,
    /// An erase block does not start with its magic.
    BadMagic,
}

/// What is recognised but not supported.
#[derive(Debug, Clone, Copy, PartialEq, Eq)]
pub enum Unsupported {
    EncryptedPartitionTable,
    EncryptedSubImage,
    MissingHashAlgo,
    MissingSubImage,
}

/// Why decoding a structure failed.
#[derive(Debug, Clone, Copy, PartialEq, Eq)]
pub enum DecodeCause {
    UnexpectedEof,
    UnknownEnumValue(EnumKind, u32),
    Other,
}

#[derive(Debug, Clone, Copy, PartialEq, Eq)]
pub enum Error {
    /// The input ends before the structure does.
    UnexpectedEof,
    /// A stored value does not name a variant of the enumeration.
    UnknownEnumValue(EnumKind, u32),
    /// A layer of a partition-table image is malformed; the cause says how.
    Malformed(ImageLayer, DecodeCause),
    InvalidState(StateIssue),
    NotImplemented(Unsupported),
    /// The hash algorithm decoded fine but no digest is defined for it.
    UnsupportedHashAlgo(u8),
    /// The cryptographic library reported a failure.
    Crypto,
    /// A stored name is not valid UTF-8.
    InvalidText,
}

/// The cause that a decoding error carries up to the enclosing layer.
pub open spec fn cause_of(e: Error) -> DecodeCause {
    match e {
        Error::UnexpectedEof => DecodeCause::UnexpectedEof,
        Error::UnknownEnumValue(k, v) => DecodeCause::UnknownEnumValue(k, v),
        _ => DecodeCause::Other,
    }
}

impl Error {
    /// Wraps a decoding error of one layer of a partition-table image.
    pub fn malformed(layer: ImageLayer, e: Error) -> (r: Error)
        ensures
            r == Error::Malformed(layer, cause_of(e)),
    {
        let cause = match e {
            Error::UnexpectedEof => DecodeCause::UnexpectedEof,
            Error::UnknownEnumValue(k, v) => DecodeCause::UnknownEnumValue(k, v),
            _ => DecodeCause::Other,
        };
        Error::Malformed(layer, cause)
    }
}

} // verus!

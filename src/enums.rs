//! The enumerations stored in images, with their numeric codes.
use vstd::prelude::*;

use crate::error::{EnumKind, Error};

verus! {

/// The kind of an image, as stored in its header.
#[derive(Debug, Clone, Copy, PartialEq, Eq, Structural, Hash)]
pub enum ImageType {
    Parttab,
    Boot,
    FHWSS,
    FHWSNS,
    FWLS,
    Isp,
    Voe,
    Wln,
    Xip,
    Wowln,
    Cinit,
    Cpfw,
    Unknown,
}

impl ImageType {
    /// The code stored for this variant.
    pub open spec fn value(self) -> u8 {
        match self {
            ImageType::Parttab => 0x0,
            ImageType::Boot => 0x1,
            ImageType::FHWSS => 0x2,
            ImageType::FHWSNS => 0x3,
            ImageType::FWLS => 0x4,
            ImageType::Isp => 0x5,
            ImageType::Voe => 0x6,
            ImageType::Wln => 0x7,
            ImageType::Xip => 0x8,
            ImageType::Wowln => 0x9,
            ImageType::Cinit => 0xa,
            ImageType::Cpfw => 0xb,
            ImageType::Unknown => 0x3f,
        }
    }

    /// The variant whose code is `v`, if any.
    pub open spec fn from_value(v: u8) -> Option<ImageType> {
        if v == 0x0 {
            Some(ImageType::Parttab)
        } else if v == 0x1 {
            Some(ImageType::Boot)
        } else if v == 0x2 {
            Some(ImageType::FHWSS)
        } else if v == 0x3 {
            Some(ImageType::FHWSNS)
        } else if v == 0x4 {
            Some(ImageType::FWLS)
        } else if v == 0x5 {
            Some(ImageType::Isp)
        } else if v == 0x6 {
            Some(ImageType::Voe)
        } else if v == 0x7 {
            Some(ImageType::Wln)
        } else if v == 0x8 {
            Some(ImageType::Xip)
        } else if v == 0x9 {
            Some(ImageType::Wowln)
        } else if v == 0xa {
            Some(ImageType::Cinit)
        } else if v == 0xb {
            Some(ImageType::Cpfw)
        } else if v == 0x3f {
            Some(ImageType::Unknown)
        } else {
            None
        }
    }

    pub fn as_u8(&self) -> (r: u8)
        ensures
            r == self.value(),
    {
        match self {
            ImageType::Parttab => 0x0,
            ImageType::Boot => 0x1,
            ImageType::FHWSS => 0x2,
            ImageType::FHWSNS => 0x3,
            ImageType::FWLS => 0x4,
            ImageType::Isp => 0x5,
            ImageType::Voe => 0x6,
            ImageType::Wln => 0x7,
            ImageType::Xip => 0x8,
            ImageType::Wowln => 0x9,
            ImageType::Cinit => 0xa,
            ImageType::Cpfw => 0xb,
            ImageType::Unknown => 0x3f,
        }
    }

    /// The variant whose code is `v`; an unknown code is an error.
    pub fn try_from_u8(v: u8) -> (r: Result<ImageType, Error>)
        ensures
            r == match Self::from_value(v) {
                Some(e) => Ok(e),
                None => Err(Error::UnknownEnumValue(EnumKind::ImageType, v as u32)),
            },
    {
        match v {
            0x0 => Ok(ImageType::Parttab),
            0x1 => Ok(ImageType::Boot),
            0x2 => Ok(ImageType::FHWSS),
            0x3 => Ok(ImageType::FHWSNS),
            0x4 => Ok(ImageType::FWLS),
            0x5 => Ok(ImageType::Isp),
            0x6 => Ok(ImageType::Voe),
            0x7 => Ok(ImageType::Wln),
            0x8 => Ok(ImageType::Xip),
            0x9 => Ok(ImageType::Wowln),
            0xa => Ok(ImageType::Cinit),
            0xb => Ok(ImageType::Cpfw),
            0x3f => Ok(ImageType::Unknown),
            _ => Err(Error::UnknownEnumValue(EnumKind::ImageType, v as u32)),
        }
    }

    /// Every variant is read back from its own code.
    pub proof fn lemma_value_round_trip(self)
        ensures
            Self::from_value(self.value()) == Some(self),
    {
    }
}

/// The memory region that a section is loaded into.
#[derive(Debug, Clone, Copy, PartialEq, Eq, Structural, Hash)]
pub enum SectionType {
    DTCM,
    ITCM,
    SRAM,
    PSRAM,
    LPDDR,
    XIP,
}

impl SectionType {
    /// The code stored for this variant.
    pub open spec fn value(self) -> u8 {
        match self {
            SectionType::DTCM => 0x80,
            SectionType::ITCM => 0x81,
            SectionType::SRAM => 0x82,
            SectionType::PSRAM => 0x83,
            SectionType::LPDDR => 0x84,
            SectionType::XIP => 0x85,
        }
    }

    /// The variant whose code is `v`, if any.
    pub open spec fn from_value(v: u8) -> Option<SectionType> {
        if v == 0x80 {
            Some(SectionType::DTCM)
        } else if v == 0x81 {
            Some(SectionType::ITCM)
        } else if v == 0x82 {
            Some(SectionType::SRAM)
        } else if v == 0x83 {
            Some(SectionType::PSRAM)
        } else if v == 0x84 {
            Some(SectionType::LPDDR)
        } else if v == 0x85 {
            Some(SectionType::XIP)
        } else {
            None
        }
    }

    pub fn as_u8(&self) -> (r: u8)
        ensures
            r == self.value(),
    {
        match self {
            SectionType::DTCM => 0x80,
            SectionType::ITCM => 0x81,
            SectionType::SRAM => 0x82,
            SectionType::PSRAM => 0x83,
            SectionType::LPDDR => 0x84,
            SectionType::XIP => 0x85,
        }
    }

    /// The variant whose code is `v`; an unknown code is an error.
    pub fn try_from_u8(v: u8) -> (r: Result<SectionType, Error>)
        ensures
            r == match Self::from_value(v) {
                Some(e) => Ok(e),
                None => Err(Error::UnknownEnumValue(EnumKind::SectionType, v as u32)),
            },
    {
        match v {
            0x80 => Ok(SectionType::DTCM),
            0x81 => Ok(SectionType::ITCM),
            0x82 => Ok(SectionType::SRAM),
            0x83 => Ok(SectionType::PSRAM),
            0x84 => Ok(SectionType::LPDDR),
            0x85 => Ok(SectionType::XIP),
            _ => Err(Error::UnknownEnumValue(EnumKind::SectionType, v as u32)),
        }
    }

    /// Every variant is read back from its own code.
    pub proof fn lemma_value_round_trip(self)
        ensures
            Self::from_value(self.value()) == Some(self),
    {
    }
}

/// The page size of execute-in-place remapping.
#[derive(Debug, Clone, Copy, PartialEq, Eq, Structural, Hash)]
pub enum XipPageRemapSize {
    _16K,
    _32K,
    _64K,
}

impl XipPageRemapSize {
    /// The code stored for this variant.
    pub open spec fn value(self) -> u8 {
        match self {
            XipPageRemapSize::_16K => 0x0,
            XipPageRemapSize::_32K => 0x1,
            XipPageRemapSize::_64K => 0x2,
        }
    }

    /// The variant whose code is `v`, if any.
    pub open spec fn from_value(v: u8) -> Option<XipPageRemapSize> {
        if v == 0x0 {
            Some(XipPageRemapSize::_16K)
        } else if v == 0x1 {
            Some(XipPageRemapSize::_32K)
        } else if v == 0x2 {
            Some(XipPageRemapSize::_64K)
        } else {
            None
        }
    }

    pub fn as_u8(&self) -> (r: u8)
        ensures
            r == self.value(),
    {
        match self {
            XipPageRemapSize::_16K => 0x0,
            XipPageRemapSize::_32K => 0x1,
            XipPageRemapSize::_64K => 0x2,
        }
    }

    /// The variant whose code is `v`; an unknown code is an error.
    pub fn try_from_u8(v: u8) -> (r: Result<XipPageRemapSize, Error>)
        ensures
            r == match Self::from_value(v) {
                Some(e) => Ok(e),
                None => Err(Error::UnknownEnumValue(EnumKind::XipPageRemapSize, v as u32)),
            },
    {
        match v {
            0x0 => Ok(XipPageRemapSize::_16K),
            0x1 => Ok(XipPageRemapSize::_32K),
            0x2 => Ok(XipPageRemapSize::_64K),
            _ => Err(Error::UnknownEnumValue(EnumKind::XipPageRemapSize, v as u32)),
        }
    }

    /// Every variant is read back from its own code.
    pub proof fn lemma_value_round_trip(self)
        ensures
            Self::from_value(self.value()) == Some(self),
    {
    }
}

/// The cipher that a firmware security table selects.
#[derive(Debug, Clone, Copy, PartialEq, Eq, Structural, Hash)]
pub enum EncryptionAlgo {
    Ecb,
    Cbc,
    Other,
}

impl EncryptionAlgo {
    /// The code stored for this variant.
    pub open spec fn value(self) -> u16 {
        match self {
            EncryptionAlgo::Ecb => 0x0,
            EncryptionAlgo::Cbc => 0x1,
            EncryptionAlgo::Other => 0xff,
        }
    }

    /// The variant whose code is `v`, if any.
    pub open spec fn from_value(v: u16) -> Option<EncryptionAlgo> {
        if v == 0x0 {
            Some(EncryptionAlgo::Ecb)
        } else if v == 0x1 {
            Some(EncryptionAlgo::Cbc)
        } else if v == 0xff {
            Some(EncryptionAlgo::Other)
        } else {
            None
        }
    }

    pub fn as_u16(&self) -> (r: u16)
        ensures
            r == self.value(),
    {
        match self {
            EncryptionAlgo::Ecb => 0x0,
            EncryptionAlgo::Cbc => 0x1,
            EncryptionAlgo::Other => 0xff,
        }
    }

    /// The variant whose code is `v`; an unknown code is an error.
    pub fn try_from_u16(v: u16) -> (r: Result<EncryptionAlgo, Error>)
        ensures
            r == match Self::from_value(v) {
                Some(e) => Ok(e),
                None => Err(Error::UnknownEnumValue(EnumKind::EncryptionAlgo, v as u32)),
            },
    {
        match v {
            0x0 => Ok(EncryptionAlgo::Ecb),
            0x1 => Ok(EncryptionAlgo::Cbc),
            0xff => Ok(EncryptionAlgo::Other),
            _ => Err(Error::UnknownEnumValue(EnumKind::EncryptionAlgo, v as u32)),
        }
    }

    /// Every variant is read back from its own code.
    pub proof fn lemma_value_round_trip(self)
        ensures
            Self::from_value(self.value()) == Some(self),
    {
    }
}

/// The digest that a firmware security table selects.
#[derive(Debug, Clone, Copy, PartialEq, Eq, Structural, Hash)]
pub enum HashAlgo {
    Md5,
    Sha256,
    Other,
}

impl HashAlgo {
    /// The code stored for this variant.
    pub open spec fn value(self) -> u16 {
        match self {
            HashAlgo::Md5 => 0x0,
            HashAlgo::Sha256 => 0x1,
            HashAlgo::Other => 0xff,
        }
    }

    /// The variant whose code is `v`, if any.
    pub open spec fn from_value(v: u16) -> Option<HashAlgo> {
        if v == 0x0 {
            Some(HashAlgo::Md5)
        } else if v == 0x1 {
            Some(HashAlgo::Sha256)
        } else if v == 0xff {
            Some(HashAlgo::Other)
        } else {
            None
        }
    }

    pub fn as_u16(&self) -> (r: u16)
        ensures
            r == self.value(),
    {
        match self {
            HashAlgo::Md5 => 0x0,
            HashAlgo::Sha256 => 0x1,
            HashAlgo::Other => 0xff,
        }
    }

    /// The variant whose code is `v`; an unknown code is an error.
    pub fn try_from_u16(v: u16) -> (r: Result<HashAlgo, Error>)
        ensures
            r == match Self::from_value(v) {
                Some(e) => Ok(e),
                None => Err(Error::UnknownEnumValue(EnumKind::HashAlgo, v as u32)),
            },
    {
        match v {
            0x0 => Ok(HashAlgo::Md5),
            0x1 => Ok(HashAlgo::Sha256),
            0xff => Ok(HashAlgo::Other),
            _ => Err(Error::UnknownEnumValue(EnumKind::HashAlgo, v as u32)),
        }
    }

    /// Every variant is read back from its own code.
    pub proof fn lemma_value_round_trip(self)
        ensures
            Self::from_value(self.value()) == Some(self),
    {
    }
}

/// The kind of a flash partition.
#[derive(Debug, Clone, Copy, PartialEq, Eq, Structural, Hash)]
pub enum PartitionType {
    PartTab,
    Boot,
    Fw1,
    Fw2,
    Sys,
    Cal,
    User,
    Var,
    MP,
    Rdp,
}

impl PartitionType {
    /// The code stored for this variant.
    pub open spec fn value(self) -> u8 {
        match self {
            PartitionType::PartTab => 0x0,
            PartitionType::Boot => 0x1,
            PartitionType::Fw1 => 0x2,
            PartitionType::Fw2 => 0x3,
            PartitionType::Sys => 0x4,
            PartitionType::Cal => 0x5,
            PartitionType::User => 0x6,
            PartitionType::Var => 0x7,
            PartitionType::MP => 0x8,
            PartitionType::Rdp => 0x9,
        }
    }

    /// The variant whose code is `v`, if any.
    pub open spec fn from_value(v: u8) -> Option<PartitionType> {
        if v == 0x0 {
            Some(PartitionType::PartTab)
        } else if v == 0x1 {
            Some(PartitionType::Boot)
        } else if v == 0x2 {
            Some(PartitionType::Fw1)
        } else if v == 0x3 {
            Some(PartitionType::Fw2)
        } else if v == 0x4 {
            Some(PartitionType::Sys)
        } else if v == 0x5 {
            Some(PartitionType::Cal)
        } else if v == 0x6 {
            Some(PartitionType::User)
        } else if v == 0x7 {
            Some(PartitionType::Var)
        } else if v == 0x8 {
            Some(PartitionType::MP)
        } else if v == 0x9 {
            Some(PartitionType::Rdp)
        } else {
            None
        }
    }

    pub fn as_u8(&self) -> (r: u8)
        ensures
            r == self.value(),
    {
        match self {
            PartitionType::PartTab => 0x0,
            PartitionType::Boot => 0x1,
            PartitionType::Fw1 => 0x2,
            PartitionType::Fw2 => 0x3,
            PartitionType::Sys => 0x4,
            PartitionType::Cal => 0x5,
            PartitionType::User => 0x6,
            PartitionType::Var => 0x7,
            PartitionType::MP => 0x8,
            PartitionType::Rdp => 0x9,
        }
    }

    /// The variant whose code is `v`; an unknown code is an error.
    pub fn try_from_u8(v: u8) -> (r: Result<PartitionType, Error>)
        ensures
            r == match Self::from_value(v) {
                Some(e) => Ok(e),
                None => Err(Error::UnknownEnumValue(EnumKind::PartitionType, v as u32)),
            },
    {
        match v {
            0x0 => Ok(PartitionType::PartTab),
            0x1 => Ok(PartitionType::Boot),
            0x2 => Ok(PartitionType::Fw1),
            0x3 => Ok(PartitionType::Fw2),
            0x4 => Ok(PartitionType::Sys),
            0x5 => Ok(PartitionType::Cal),
            0x6 => Ok(PartitionType::User),
            0x7 => Ok(PartitionType::Var),
            0x8 => Ok(PartitionType::MP),
            0x9 => Ok(PartitionType::Rdp),
            _ => Err(Error::UnknownEnumValue(EnumKind::PartitionType, v as u32)),
        }
    }

    /// Every variant is read back from its own code.
    pub proof fn lemma_value_round_trip(self)
        ensures
            Self::from_value(self.value()) == Some(self),
    {
    }
}

/// Which keys the boot loader exports.
#[derive(Debug, Clone, Copy, PartialEq, Eq, Structural, Hash)]
pub enum KeyExportOp {
    Disabled,
    Latest,
    Both,
}

impl KeyExportOp {
    /// The code stored for this variant.
    pub open spec fn value(self) -> u8 {
        match self {
            KeyExportOp::Disabled => 0x0,
            KeyExportOp::Latest => 0x1,
            KeyExportOp::Both => 0x2,
        }
    }

    /// The variant whose code is `v`, if any.
    pub open spec fn from_value(v: u8) -> Option<KeyExportOp> {
        if v == 0x0 {
            Some(KeyExportOp::Disabled)
        } else if v == 0x1 {
            Some(KeyExportOp::Latest)
        } else if v == 0x2 {
            Some(KeyExportOp::Both)
        } else {
            None
        }
    }

    pub fn as_u8(&self) -> (r: u8)
        ensures
            r == self.value(),
    {
        match self {
            KeyExportOp::Disabled => 0x0,
            KeyExportOp::Latest => 0x1,
            KeyExportOp::Both => 0x2,
        }
    }

    /// The variant whose code is `v`; an unknown code is an error.
    pub fn try_from_u8(v: u8) -> (r: Result<KeyExportOp, Error>)
        ensures
            r == match Self::from_value(v) {
                Some(e) => Ok(e),
                None => Err(Error::UnknownEnumValue(EnumKind::KeyExportOp, v as u32)),
            },
    {
        match v {
            0x0 => Ok(KeyExportOp::Disabled),
            0x1 => Ok(KeyExportOp::Latest),
            0x2 => Ok(KeyExportOp::Both),
            _ => Err(Error::UnknownEnumValue(EnumKind::KeyExportOp, v as u32)),
        }
    }

    /// Every variant is read back from its own code.
    pub proof fn lemma_value_round_trip(self)
        ensures
            Self::from_value(self.value()) == Some(self),
    {
    }
}

impl XipPageRemapSize {
    /// The page size in bytes.
    pub open spec fn spec_page_size(self) -> u32 {
        match self {
            XipPageRemapSize::_16K => 0x4000,
            XipPageRemapSize::_32K => 0x8000,
            XipPageRemapSize::_64K => 0x10000,
        }
    }

    pub fn page_size(&self) -> (r: u32)
        ensures
            r == self.spec_page_size(),
    {
        match self {
            XipPageRemapSize::_16K => 0x4000,
            XipPageRemapSize::_32K => 0x8000,
            XipPageRemapSize::_64K => 0x10000,
        }
    }
}

} // verus!

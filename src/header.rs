//! The fixed-size metadata blocks: key block, image header, section header and
//! entry header.
use vstd::prelude::*;

use crate::bytes::{
    all_ff, flag_byte, fill, get_array, get_u32, is_all_ff, le32, lemma_all_ff_is_fill, lemma_flag_byte,
    lemma_le32_window, make_flag_byte, u32_bytes, write_fill, write_slice, write_u32, ByteReader,
};
use crate::enums::{ImageType, SectionType, XipPageRemapSize};
use crate::error::Error;

verus! {

/// Types whose encoding always has the same length.
pub trait BinarySize {
    spec fn spec_binary_size() -> nat;

    fn binary_size() -> (r: usize)
        ensures
            r == Self::spec_binary_size(),
    ;
}

/// The byte stored for a boolean.
pub open spec fn bool_byte(b: bool) -> u8 {
    if b {
        1
    } else {
        0
    }
}

/// The two 32-byte public keys in front of every signed image.
#[derive(Debug, Clone, Copy)]
pub struct KeyBlock {
    pub enc_pubkey: [u8; 32],
    pub hash_pubkey: [u8; 32],
}

pub const KEY_BLOCK_SIZE: usize = 64;

pub const IMAGE_HEADER_SIZE: usize = 0x60;

pub const SECTION_HEADER_SIZE: usize = 0x60;

pub const ENTRY_HEADER_SIZE: usize = 0x20;

impl BinarySize for KeyBlock {
    open spec fn spec_binary_size() -> nat {
        64
    }

    fn binary_size() -> (r: usize) {
        KEY_BLOCK_SIZE
    }
}

impl Default for KeyBlock {
    fn default() -> (r: Self)
        ensures
            r.enc_pubkey@ == fill(0xFF, 32),
            r.hash_pubkey@ == fill(0xFF, 32),
    {
        let r = KeyBlock { enc_pubkey: [0xFF; 32], hash_pubkey: [0xFF; 32] };
        assert(r.enc_pubkey@ =~= fill(0xFF, 32));
        assert(r.hash_pubkey@ =~= fill(0xFF, 32));
        r
    }
}

impl KeyBlock {
    pub open spec fn encoded(self) -> Seq<u8> {
        self.enc_pubkey@ + self.hash_pubkey@
    }

    /// `self` is what decoding the 64 bytes `s` gives.
    pub open spec fn parsed_from(self, s: Seq<u8>) -> bool {
        &&& self.enc_pubkey@ == s.subrange(0, 32)
        &&& self.hash_pubkey@ == s.subrange(32, 64)
    }

    pub fn read_from(r: &mut ByteReader) -> (res: Result<KeyBlock, Error>)
        ensures
            final(r).data@ == old(r).data@,
            res is Ok <==> old(r).has(64),
            res matches Ok(k) ==> k.parsed_from(old(r).window(64)) && final(r).pos == old(r).pos
                + 64,
            res is Err ==> res == Err::<KeyBlock, Error>(Error::UnexpectedEof),
    {
        let w = r.read_vec(64)?;
        let enc_pubkey = get_array::<32>(w.as_slice(), 0);
        let hash_pubkey = get_array::<32>(w.as_slice(), 32);
        Ok(KeyBlock { enc_pubkey, hash_pubkey })
    }

    pub fn write_to(&self, out: &mut Vec<u8>)
        ensures
            final(out)@ == old(out)@ + self.encoded(),
    {
        write_slice(out, self.enc_pubkey.as_slice());
        write_slice(out, self.hash_pubkey.as_slice());
        assert(final(out)@ =~= old(out)@ + self.encoded());
    }

    /// Decoding the encoding of a key block gives it back; the encoding is 64 bytes.
    pub proof fn lemma_round_trip(self)
        ensures
            self.encoded().len() == Self::spec_binary_size(),
            self.parsed_from(self.encoded()),
    {
        assert(self.encoded().subrange(0, 32) =~= self.enc_pubkey@);
        assert(self.encoded().subrange(32, 64) =~= self.hash_pubkey@);
    }

    pub fn is_enc_pubkey_valid(&self) -> (r: bool)
        ensures
            r == !all_ff(self.enc_pubkey@),
    {
        !is_all_ff(self.enc_pubkey.as_slice())
    }

    pub fn is_hash_pubkey_valid(&self) -> (r: bool)
        ensures
            r == !all_ff(self.hash_pubkey@),
    {
        !is_all_ff(self.hash_pubkey.as_slice())
    }

    pub fn get_enc_pubkey(&self) -> (r: &[u8; 32])
        ensures
            *r == self.enc_pubkey,
    {
        &self.enc_pubkey
    }

    pub fn get_hash_pubkey(&self) -> (r: &[u8; 32])
        ensures
            *r == self.hash_pubkey,
    {
        &self.hash_pubkey
    }
}

/// The 0x60-byte header of an image: its size, the offset of the next image, its
/// type, and two optional user keys whose presence a flags byte records.
#[derive(Debug, Clone, Copy)]
pub struct ImageHeader {
    pub segment_size: u32,
    pub next_offset: u32,
    pub img_type: ImageType,
    pub is_encrypt: bool,
    pub serial: u32,
    pub user_key1: [u8; 32],
    pub user_key2: [u8; 32],
}

impl BinarySize for ImageHeader {
    open spec fn spec_binary_size() -> nat {
        0x60
    }

    fn binary_size() -> (r: usize) {
        IMAGE_HEADER_SIZE
    }
}

impl Default for ImageHeader {
    fn default() -> (r: Self)
        ensures
            r.segment_size == 0,
            r.next_offset == 0xFFFF_FFFF,
            r.img_type == ImageType::Parttab,
            !r.is_encrypt,
            r.serial == 0xFFFF_FFFF,
            r.user_key1@ == fill(0xFF, 32),
            r.user_key2@ == fill(0xFF, 32),
    {
        let r = ImageHeader {
            segment_size: 0,
            next_offset: 0xFFFF_FFFF,
            img_type: ImageType::Parttab,
            is_encrypt: false,
            serial: 0xFFFF_FFFF,
            user_key1: [0xFF; 32],
            user_key2: [0xFF; 32],
        };
        assert(r.user_key1@ =~= fill(0xFF, 32));
        assert(r.user_key2@ =~= fill(0xFF, 32));
        r
    }
}

/// A user key as decoding leaves it: the stored bytes when the flag is set, else sentinels.
pub open spec fn flagged_key(flag: bool, s: Seq<u8>) -> Seq<u8> {
    if flag {
        s
    } else {
        fill(0xFF, s.len())
    }
}

impl ImageHeader {
    pub open spec fn encoded(self) -> Seq<u8> {
        u32_bytes(self.segment_size) + u32_bytes(self.next_offset) + seq![
            self.img_type.value(),
            bool_byte(self.is_encrypt),
            0u8,
            flag_byte(!all_ff(self.user_key1@), !all_ff(self.user_key2@)),
        ] + fill(0xFF, 8) + u32_bytes(self.serial) + fill(0xFF, 8) + self.user_key1@
            + self.user_key2@
    }

    /// The 96 bytes `s` decode: their image type is known.
    pub open spec fn decodable(s: Seq<u8>) -> bool {
        ImageType::from_value(s[8]) is Some
    }

    /// `self` is what decoding the 96 bytes `s` gives.
    pub open spec fn parsed_from(self, s: Seq<u8>) -> bool {
        &&& self.segment_size == le32(s, 0)
        &&& self.next_offset == le32(s, 4)
        &&& ImageType::from_value(s[8]) == Some(self.img_type)
        &&& self.is_encrypt == (s[9] != 0)
        &&& self.serial == le32(s, 20)
        &&& self.user_key1@ == flagged_key((s[11] & 1u8) == 1u8, s.subrange(32, 64))
        &&& self.user_key2@ == flagged_key((s[11] & 2u8) == 2u8, s.subrange(64, 96))
    }

    pub fn read_from(r: &mut ByteReader) -> (res: Result<ImageHeader, Error>)
        ensures
            final(r).data@ == old(r).data@,
            res is Ok <==> old(r).has(0x60) && Self::decodable(old(r).window(0x60)),
            res matches Ok(h) ==> h.parsed_from(old(r).window(0x60)) && final(r).pos == old(
                r,
            ).pos + 0x60,
            !old(r).has(0x60) ==> res == Err::<ImageHeader, Error>(Error::UnexpectedEof),
            old(r).has(0x60) && !Self::decodable(old(r).window(0x60)) ==> res == Err::<
                ImageHeader,
                Error,
            >(Error::UnknownEnumValue(crate::error::EnumKind::ImageType, old(r).window(0x60)[8] as u32)),
    {
        let w = r.read_vec(0x60)?;
        let s = w.as_slice();
        let img_type = ImageType::try_from_u8(s[8])?;
        let flags = s[11];
        let user_key1 = if flags & 1 == 1 {
            get_array::<32>(s, 32)
        } else {
            [0xFF; 32]
        };
        let user_key2 = if flags & 2 == 2 {
            get_array::<32>(s, 64)
        } else {
            [0xFF; 32]
        };
        assert(user_key1@ =~= flagged_key((s@[11] & 1u8) == 1u8, s@.subrange(32, 64)));
        assert(user_key2@ =~= flagged_key((s@[11] & 2u8) == 2u8, s@.subrange(64, 96)));
        Ok(
            ImageHeader {
                segment_size: get_u32(s, 0),
                next_offset: get_u32(s, 4),
                img_type,
                is_encrypt: s[9] != 0,
                serial: get_u32(s, 20),
                user_key1,
                user_key2,
            },
        )
    }

    #[verifier::rlimit(60)]
    pub fn write_to(&self, out: &mut Vec<u8>)
        ensures
            final(out)@ == old(out)@ + self.encoded(),
    {
        write_u32(out, self.segment_size);
        write_u32(out, self.next_offset);
        out.push(self.img_type.as_u8());
        out.push(if self.is_encrypt { 1 } else { 0 });
        out.push(0);
        out.push(make_flag_byte(self.is_key1_valid(), self.is_key2_valid()));
        write_fill(out, 0xFF, 8);
        write_u32(out, self.serial);
        write_fill(out, 0xFF, 8);
        write_slice(out, self.user_key1.as_slice());
        write_slice(out, self.user_key2.as_slice());
        assert(final(out)@ =~= old(out)@ + self.encoded());
    }

    /// Decoding the encoding of a header gives it back; the encoding is 0x60 bytes.
    pub proof fn lemma_round_trip(self)
        ensures
            self.encoded().len() == Self::spec_binary_size(),
            Self::decodable(self.encoded()),
            self.parsed_from(self.encoded()),
    {
        let e = self.encoded();
        lemma_flag_byte(!all_ff(self.user_key1@), !all_ff(self.user_key2@));
        assert(e.subrange(0, 4) =~= u32_bytes(self.segment_size));
        assert(e.subrange(4, 8) =~= u32_bytes(self.next_offset));
        assert(e.subrange(20, 24) =~= u32_bytes(self.serial));
        lemma_le32_window(e, 0, self.segment_size);
        lemma_le32_window(e, 4, self.next_offset);
        lemma_le32_window(e, 20, self.serial);
        self.img_type.lemma_value_round_trip();
        assert(e[8] == self.img_type.value());
        assert(e[11] == flag_byte(!all_ff(self.user_key1@), !all_ff(self.user_key2@)));
        assert(e.subrange(32, 64) =~= self.user_key1@);
        assert(e.subrange(64, 96) =~= self.user_key2@);
        if all_ff(self.user_key1@) {
            lemma_all_ff_is_fill(self.user_key1@);
        }
        if all_ff(self.user_key2@) {
            lemma_all_ff_is_fill(self.user_key2@);
        }
    }

    pub fn is_key1_valid(&self) -> (r: bool)
        ensures
            r == !all_ff(self.user_key1@),
    {
        !is_all_ff(self.user_key1.as_slice())
    }

    pub fn is_key2_valid(&self) -> (r: bool)
        ensures
            r == !all_ff(self.user_key2@),
    {
        !is_all_ff(self.user_key2.as_slice())
    }

    pub open spec fn spec_has_next(self) -> bool {
        self.next_offset != 0xFFFF_FFFF
    }

    /// Another image follows this one.
    pub fn has_next(&self) -> (r: bool)
        ensures
            r == self.spec_has_next(),
    {
        self.next_offset != 0xFFFF_FFFF
    }

    pub fn get_user_key1(&self) -> (r: &[u8; 32])
        ensures
            *r == self.user_key1,
    {
        &self.user_key1
    }

    pub fn get_user_key2(&self) -> (r: &[u8; 32])
        ensures
            *r == self.user_key2,
    {
        &self.user_key2
    }
}

/// The 0x60-byte header of a section: its length, the offset of the next section,
/// where it is loaded, and the optional execute-in-place key and IV.
#[derive(Debug, Clone, Copy)]
pub struct SectionHeader {
    pub length: u32,
    pub next_offset: u32,
    pub sect_type: SectionType,
    pub sce_enabled: bool,
    pub xip_page_size: XipPageRemapSize,
    pub xip_block_size: u8,
    pub valid_pattern: [u8; 8],
    pub xip_key: [u8; 16],
    pub xip_iv: [u8; 16],
}

impl BinarySize for SectionHeader {
    open spec fn spec_binary_size() -> nat {
        0x60
    }

    fn binary_size() -> (r: usize) {
        SECTION_HEADER_SIZE
    }
}

impl Default for SectionHeader {
    fn default() -> (r: Self)
        ensures
            r.length == 0,
            r.next_offset == 0xFFFF_FFFF,
            r.sect_type == SectionType::XIP,
            !r.sce_enabled,
            r.xip_page_size == XipPageRemapSize::_16K,
            r.xip_block_size == 0,
            r.valid_pattern@ == seq![0u8, 1, 2, 3, 4, 5, 6, 7],
            r.xip_key@ == fill(0xFF, 16),
            r.xip_iv@ == fill(0xFF, 16),
    {
        let r = SectionHeader {
            length: 0,
            next_offset: 0xFFFF_FFFF,
            sect_type: SectionType::XIP,
            sce_enabled: false,
            xip_page_size: XipPageRemapSize::_16K,
            xip_block_size: 0,
            valid_pattern: [0, 1, 2, 3, 4, 5, 6, 7],
            xip_key: [0xFF; 16],
            xip_iv: [0xFF; 16],
        };
        assert(r.valid_pattern@ =~= seq![0u8, 1, 2, 3, 4, 5, 6, 7]);
        assert(r.xip_key@ =~= fill(0xFF, 16));
        assert(r.xip_iv@ =~= fill(0xFF, 16));
        r
    }
}

impl SectionHeader {
    pub open spec fn spec_xip_key_iv_valid(self) -> bool {
        !all_ff(self.xip_key@) && !all_ff(self.xip_iv@)
    }

    pub open spec fn encoded(self) -> Seq<u8> {
        u32_bytes(self.length) + u32_bytes(self.next_offset) + seq![
            self.sect_type.value(),
            bool_byte(self.sce_enabled),
            self.xip_page_size.value(),
            self.xip_block_size,
        ] + fill(0xFF, 4) + self.valid_pattern@ + seq![bool_byte(self.spec_xip_key_iv_valid())]
            + fill(0xFF, 7) + self.xip_key@ + self.xip_iv@ + fill(0xFF, 32)
    }

    /// The 96 bytes `s` decode: their section type and page size are known.
    pub open spec fn decodable(s: Seq<u8>) -> bool {
        &&& SectionType::from_value(s[8]) is Some
        &&& XipPageRemapSize::from_value(s[10]) is Some
    }

    /// `self` is what decoding the 96 bytes `s` gives.
    pub open spec fn parsed_from(self, s: Seq<u8>) -> bool {
        let flag = (s[24] & 1u8) == 1u8;
        &&& self.length == le32(s, 0)
        &&& self.next_offset == le32(s, 4)
        &&& SectionType::from_value(s[8]) == Some(self.sect_type)
        &&& self.sce_enabled == (s[9] != 0)
        &&& XipPageRemapSize::from_value(s[10]) == Some(self.xip_page_size)
        &&& self.xip_block_size == s[11]
        &&& self.valid_pattern@ == s.subrange(16, 24)
        &&& self.xip_key@ == flagged_key(flag, s.subrange(32, 48))
        &&& self.xip_iv@ == flagged_key(flag, s.subrange(48, 64))
    }

    /// The key and the IV are both present or both absent, as their single flag records.
    pub open spec fn valid(self) -> bool {
        all_ff(self.xip_key@) == all_ff(self.xip_iv@)
    }

    pub fn read_from(r: &mut ByteReader) -> (res: Result<SectionHeader, Error>)
        ensures
            final(r).data@ == old(r).data@,
            res is Ok <==> old(r).has(0x60) && Self::decodable(old(r).window(0x60)),
            res matches Ok(h) ==> h.parsed_from(old(r).window(0x60)) && final(r).pos == old(
                r,
            ).pos + 0x60,
            !old(r).has(0x60) ==> res == Err::<SectionHeader, Error>(Error::UnexpectedEof),
    {
        let w = r.read_vec(0x60)?;
        let s = w.as_slice();
        let sect_type = SectionType::try_from_u8(s[8])?;
        let xip_page_size = XipPageRemapSize::try_from_u8(s[10])?;
        let flag = s[24] & 1 == 1;
        let xip_key = if flag {
            get_array::<16>(s, 32)
        } else {
            [0xFF; 16]
        };
        let xip_iv = if flag {
            get_array::<16>(s, 48)
        } else {
            [0xFF; 16]
        };
        assert(xip_key@ =~= flagged_key(flag, s@.subrange(32, 48)));
        assert(xip_iv@ =~= flagged_key(flag, s@.subrange(48, 64)));
        Ok(
            SectionHeader {
                length: get_u32(s, 0),
                next_offset: get_u32(s, 4),
                sect_type,
                sce_enabled: s[9] != 0,
                xip_page_size,
                xip_block_size: s[11],
                valid_pattern: get_array::<8>(s, 16),
                xip_key,
                xip_iv,
            },
        )
    }

    #[verifier::rlimit(60)]
    pub fn write_to(&self, out: &mut Vec<u8>)
        ensures
            final(out)@ == old(out)@ + self.encoded(),
    {
        write_u32(out, self.length);
        write_u32(out, self.next_offset);
        out.push(self.sect_type.as_u8());
        out.push(if self.sce_enabled { 1 } else { 0 });
        out.push(self.xip_page_size.as_u8());
        out.push(self.xip_block_size);
        write_fill(out, 0xFF, 4);
        write_slice(out, self.valid_pattern.as_slice());
        out.push(if self.xip_key_iv_valid() { 1 } else { 0 });
        write_fill(out, 0xFF, 7);
        write_slice(out, self.xip_key.as_slice());
        write_slice(out, self.xip_iv.as_slice());
        write_fill(out, 0xFF, 32);
        assert(final(out)@ =~= old(out)@ + self.encoded());
    }

    /// Decoding the encoding of a valid section header gives it back; the encoding
    /// is 0x60 bytes.
    pub proof fn lemma_round_trip(self)
        requires
            self.valid(),
        ensures
            self.encoded().len() == Self::spec_binary_size(),
            Self::decodable(self.encoded()),
            self.parsed_from(self.encoded()),
    {
        let e = self.encoded();
        assert(e.subrange(0, 4) =~= u32_bytes(self.length));
        assert(e.subrange(4, 8) =~= u32_bytes(self.next_offset));
        lemma_le32_window(e, 0, self.length);
        lemma_le32_window(e, 4, self.next_offset);
        self.sect_type.lemma_value_round_trip();
        self.xip_page_size.lemma_value_round_trip();
        assert(e[8] == self.sect_type.value());
        assert(e[10] == self.xip_page_size.value());
        assert(e[11] == self.xip_block_size);
        assert(e[24] == bool_byte(self.spec_xip_key_iv_valid()));
        assert((1u8 & 1u8) == 1u8 && (0u8 & 1u8) == 0u8) by (bit_vector);
        assert(e.subrange(16, 24) =~= self.valid_pattern@);
        assert(e.subrange(32, 48) =~= self.xip_key@);
        assert(e.subrange(48, 64) =~= self.xip_iv@);
        if all_ff(self.xip_key@) {
            lemma_all_ff_is_fill(self.xip_key@);
            lemma_all_ff_is_fill(self.xip_iv@);
        }
    }

    /// Another section follows this one.
    pub fn has_next(&self) -> (r: bool)
        ensures
            r == (self.next_offset != 0xFFFF_FFFF),
    {
        self.next_offset != 0xFFFF_FFFF
    }

    pub fn xip_key_iv_valid(&self) -> (r: bool)
        ensures
            r == self.spec_xip_key_iv_valid(),
    {
        !is_all_ff(self.xip_key.as_slice()) && !is_all_ff(self.xip_iv.as_slice())
    }

    pub fn get_xip_key(&self) -> (r: &[u8; 16])
        ensures
            *r == self.xip_key,
    {
        &self.xip_key
    }

    pub fn get_xip_iv(&self) -> (r: &[u8; 16])
        ensures
            *r == self.xip_iv,
    {
        &self.xip_iv
    }

    pub fn get_valid_pattern(&self) -> (r: &[u8; 8])
        ensures
            *r == self.valid_pattern,
    {
        &self.valid_pattern
    }
}

/// The 0x20-byte entry header: length, load address and optional entry address
/// (stored as `0xFFFF_FFFF` when absent).
#[derive(Debug, Clone, Copy, PartialEq, Eq, Structural)]
pub struct EntryHeader {
    pub length: u32,
    pub load_address: u32,
    pub entry_address: Option<u32>,
}

impl BinarySize for EntryHeader {
    open spec fn spec_binary_size() -> nat {
        0x20
    }

    fn binary_size() -> (r: usize) {
        ENTRY_HEADER_SIZE
    }
}

impl Default for EntryHeader {
    fn default() -> (r: Self)
        ensures
            r == (EntryHeader { length: 0, load_address: 0, entry_address: None }),
    {
        EntryHeader { length: 0, load_address: 0, entry_address: None }
    }
}

impl EntryHeader {
    pub open spec fn encoded(self) -> Seq<u8> {
        u32_bytes(self.length) + u32_bytes(self.load_address) + u32_bytes(
            match self.entry_address {
                Some(a) => a,
                None => 0xFFFF_FFFF,
            },
        ) + fill(0xFF, 20)
    }

    /// `self` is what decoding the 32 bytes `s` gives.
    pub open spec fn parsed_from(self, s: Seq<u8>) -> bool {
        &&& self.length == le32(s, 0)
        &&& self.load_address == le32(s, 4)
        &&& self.entry_address == if le32(s, 8) == 0xFFFF_FFFF {
            None
        } else {
            Some(le32(s, 8))
        }
    }

    /// The entry address is not the value that stands for its absence.
    pub open spec fn valid(self) -> bool {
        self.entry_address != Some(0xFFFF_FFFFu32)
    }

    pub fn read_from(r: &mut ByteReader) -> (res: Result<EntryHeader, Error>)
        ensures
            final(r).data@ == old(r).data@,
            res is Ok <==> old(r).has(0x20),
            res matches Ok(h) ==> h.parsed_from(old(r).window(0x20)) && final(r).pos == old(
                r,
            ).pos + 0x20,
            res is Err ==> res == Err::<EntryHeader, Error>(Error::UnexpectedEof),
    {
        let w = r.read_vec(0x20)?;
        let s = w.as_slice();
        let entry = get_u32(s, 8);
        Ok(
            EntryHeader {
                length: get_u32(s, 0),
                load_address: get_u32(s, 4),
                entry_address: if entry == 0xFFFF_FFFF {
                    None
                } else {
                    Some(entry)
                },
            },
        )
    }

    pub fn write_to(&self, out: &mut Vec<u8>)
        ensures
            final(out)@ == old(out)@ + self.encoded(),
    {
        write_u32(out, self.length);
        write_u32(out, self.load_address);
        let entry = match self.entry_address {
            Some(a) => a,
            None => 0xFFFF_FFFF,
        };
        write_u32(out, entry);
        write_fill(out, 0xFF, 20);
        assert(final(out)@ =~= old(out)@ + self.encoded());
    }

    /// Decoding the encoding of a valid entry header gives it back; the encoding is
    /// 0x20 bytes.
    pub proof fn lemma_round_trip(self)
        requires
            self.valid(),
        ensures
            self.encoded().len() == Self::spec_binary_size(),
            self.parsed_from(self.encoded()),
    {
        let e = self.encoded();
        let entry = match self.entry_address {
            Some(a) => a,
            None => 0xFFFF_FFFFu32,
        };
        assert(e.subrange(0, 4) =~= u32_bytes(self.length));
        assert(e.subrange(4, 8) =~= u32_bytes(self.load_address));
        assert(e.subrange(8, 12) =~= u32_bytes(entry));
        lemma_le32_window(e, 0, self.length);
        lemma_le32_window(e, 4, self.load_address);
        lemma_le32_window(e, 8, entry);
    }
}

} // verus!

//! The firmware security table: cipher and digest selection and optional cipher material.
use vstd::prelude::*;

use crate::bytes::{
    all_ff, fill, get_array, get_u16, get_u32, is_all_ff, le16, le32, lemma_le16_window,
    lemma_le32_window, lemma_sentinel_round_trip, make_flag_byte, flag_byte, opt_view, sentinel_bytes,
    u16_bytes, u32_bytes, write_fill, write_optional, write_slice, write_u16, write_u32, ByteReader,
};
use crate::enums::{EncryptionAlgo, HashAlgo};
use crate::error::Error;
use crate::header::{bool_byte, BinarySize};

verus! {

pub const FST_SIZE: usize = 0x60;

/// The pattern that marks a valid security table or section header.
pub const DEFAULT_VALID_PATTERN: [u8; 8] = [0, 1, 2, 3, 4, 5, 6, 7];

/// The 0x60-byte firmware security table of a sub-image.
#[derive(Debug, Clone, Copy)]
pub struct FST {
    pub enc_algo: Option<EncryptionAlgo>,
    pub hash_algo: Option<HashAlgo>,
    pub partition_size: u32,
    pub valid_pattern: [u8; 8],
    pub cipher_key: Option<[u8; 32]>,
    pub cipher_iv: Option<[u8; 16]>,
}

impl BinarySize for FST {
    open spec fn spec_binary_size() -> nat {
        0x60
    }

    fn binary_size() -> (r: usize) {
        FST_SIZE
    }
}

impl Default for FST {
    fn default() -> (r: Self)
        ensures
            r.enc_algo is None,
            r.hash_algo == Some(HashAlgo::Sha256),
            r.partition_size == 0,
            r.valid_pattern@ == seq![0u8, 1, 2, 3, 4, 5, 6, 7],
            r.cipher_key is None,
            r.cipher_iv is None,
    {
        let r = FST {
            enc_algo: None,
            hash_algo: Some(HashAlgo::Sha256),
            partition_size: 0,
            valid_pattern: [0, 1, 2, 3, 4, 5, 6, 7],
            cipher_key: None,
            cipher_iv: None,
        };
        assert(r.valid_pattern@ =~= seq![0u8, 1, 2, 3, 4, 5, 6, 7]);
        r
    }
}

/// The code written for an optional algorithm: algorithm zero when absent.
pub open spec fn enc_code(a: Option<EncryptionAlgo>) -> u16 {
    match a {
        Some(x) => x.value(),
        None => 0,
    }
}

pub open spec fn hash_code(a: Option<HashAlgo>) -> u16 {
    match a {
        Some(x) => x.value(),
        None => 0,
    }
}

impl FST {
    pub open spec fn spec_cipher_key_iv_valid(self) -> bool {
        match (self.cipher_key, self.cipher_iv) {
            (Some(k), Some(iv)) => !all_ff(k@) && !all_ff(iv@),
            _ => false,
        }
    }

    pub open spec fn encoded(self) -> Seq<u8> {
        u16_bytes(enc_code(self.enc_algo)) + u16_bytes(hash_code(self.hash_algo)) + u32_bytes(
            self.partition_size,
        ) + self.valid_pattern@ + fill(0xFF, 4) + seq![
            flag_byte(self.enc_algo is Some, self.hash_algo is Some),
            bool_byte(self.spec_cipher_key_iv_valid()),
        ] + fill(0xFF, 10) + sentinel_bytes(self.cipher_key) + sentinel_bytes(self.cipher_iv)
            + fill(0xFF, 16)
    }

    /// The 96 bytes `s` decode: both algorithm codes are known, enabled or not.
    pub open spec fn decodable(s: Seq<u8>) -> bool {
        &&& EncryptionAlgo::from_value(le16(s, 0)) is Some
        &&& HashAlgo::from_value(le16(s, 2)) is Some
    }

    /// `self` is what decoding the 96 bytes `s` gives.
    pub open spec fn parsed_from(self, s: Seq<u8>) -> bool {
        let flags = s[20] & 3u8;
        let key_flag = (s[21] & 1u8) == 1u8;
        &&& self.enc_algo == if (flags & 1u8) == 1u8 {
            EncryptionAlgo::from_value(le16(s, 0))
        } else {
            None
        }
        &&& self.hash_algo == if (flags & 2u8) != 0u8 {
            HashAlgo::from_value(le16(s, 2))
        } else {
            None
        }
        &&& self.partition_size == le32(s, 4)
        &&& self.valid_pattern@ == s.subrange(8, 16)
        &&& opt_view(self.cipher_key) == if key_flag {
            Some(s.subrange(32, 64))
        } else {
            None
        }
        &&& opt_view(self.cipher_iv) == if key_flag {
            Some(s.subrange(64, 80))
        } else {
            None
        }
    }

    /// The cipher key and IV are both present and not all sentinel bytes, or both absent,
    /// as their single flag records.
    pub open spec fn valid(self) -> bool {
        self.spec_cipher_key_iv_valid() || (self.cipher_key is None && self.cipher_iv is None)
    }

    pub fn read_from(r: &mut ByteReader) -> (res: Result<FST, Error>)
        ensures
            final(r).data@ == old(r).data@,
            res is Ok <==> old(r).has(0x60) && Self::decodable(old(r).window(0x60)),
            res matches Ok(f) ==> f.parsed_from(old(r).window(0x60)) && final(r).pos == old(
                r,
            ).pos + 0x60,
            !old(r).has(0x60) ==> res == Err::<FST, Error>(Error::UnexpectedEof),
    {
        let w = r.read_vec(0x60)?;
        let s = w.as_slice();
        let enc = EncryptionAlgo::try_from_u16(get_u16(s, 0))?;
        let hash = HashAlgo::try_from_u16(get_u16(s, 2))?;
        let flags = s[20] & 3;
        let enc_algo = if flags & 1 == 1 {
            Some(enc)
        } else {
            None
        };
        let hash_algo = if flags & 2 != 0 {
            Some(hash)
        } else {
            None
        };
        let (cipher_key, cipher_iv) = if s[21] & 1 == 1 {
            (Some(get_array::<32>(s, 32)), Some(get_array::<16>(s, 64)))
        } else {
            (None, None)
        };
        Ok(
            FST {
                enc_algo,
                hash_algo,
                partition_size: get_u32(s, 4),
                valid_pattern: get_array::<8>(s, 8),
                cipher_key,
                cipher_iv,
            },
        )
    }

    #[verifier::rlimit(40)]
    pub fn write_to(&self, out: &mut Vec<u8>)
        ensures
            final(out)@ == old(out)@ + self.encoded(),
    {
        let enc = match self.enc_algo {
            Some(a) => a.as_u16(),
            None => 0,
        };
        let hash = match self.hash_algo {
            Some(a) => a.as_u16(),
            None => 0,
        };
        write_u16(out, enc);
        write_u16(out, hash);
        write_u32(out, self.partition_size);
        write_slice(out, self.valid_pattern.as_slice());
        write_fill(out, 0xFF, 4);
        out.push(make_flag_byte(self.enc_algo.is_some(), self.hash_algo.is_some()));
        out.push(if self.is_cipher_key_iv_valid() { 1 } else { 0 });
        write_fill(out, 0xFF, 10);
        write_optional(out, &self.cipher_key);
        write_optional(out, &self.cipher_iv);
        write_fill(out, 0xFF, 16);
        assert(final(out)@ =~= old(out)@ + self.encoded());
    }

    /// Decoding the encoding of a valid table gives it back; the encoding is 0x60 bytes.
    pub proof fn lemma_round_trip(self)
        requires
            self.valid(),
        ensures
            self.encoded().len() == Self::spec_binary_size(),
            Self::decodable(self.encoded()),
            self.parsed_from(self.encoded()),
    {
        let e = self.encoded();
        let ec = enc_code(self.enc_algo);
        let hc = hash_code(self.hash_algo);
        lemma_sentinel_round_trip(self.cipher_key);
        lemma_sentinel_round_trip(self.cipher_iv);
        assert(e.subrange(0, 2) =~= u16_bytes(ec));
        assert(e.subrange(2, 4) =~= u16_bytes(hc));
        assert(e.subrange(4, 8) =~= u32_bytes(self.partition_size));
        lemma_le16_window(e, 0, ec);
        lemma_le16_window(e, 2, hc);
        lemma_le32_window(e, 4, self.partition_size);
        if let Some(a) = self.enc_algo {
            a.lemma_value_round_trip();
        }
        if let Some(a) = self.hash_algo {
            a.lemma_value_round_trip();
        }
        assert(EncryptionAlgo::from_value(0) is Some);
        assert(HashAlgo::from_value(0) is Some);
        assert(e.subrange(8, 16) =~= self.valid_pattern@);
        assert(e[20] == flag_byte(self.enc_algo is Some, self.hash_algo is Some));
        assert(e[21] == bool_byte(self.spec_cipher_key_iv_valid()));
        assert(((0u8 & 3u8) & 1u8) == 0u8 && ((0u8 & 3u8) & 2u8) == 0u8) by (bit_vector);
        assert(((1u8 & 3u8) & 1u8) == 1u8 && ((1u8 & 3u8) & 2u8) == 0u8) by (bit_vector);
        assert(((2u8 & 3u8) & 1u8) == 0u8 && ((2u8 & 3u8) & 2u8) == 2u8) by (bit_vector);
        assert(((3u8 & 3u8) & 1u8) == 1u8 && ((3u8 & 3u8) & 2u8) == 2u8) by (bit_vector);
        assert((1u8 & 1u8) == 1u8 && (0u8 & 1u8) == 0u8) by (bit_vector);
        assert(e.subrange(32, 64) =~= sentinel_bytes(self.cipher_key));
        assert(e.subrange(64, 80) =~= sentinel_bytes(self.cipher_iv));
    }

    pub fn is_cipher_key_iv_valid(&self) -> (r: bool)
        ensures
            r == self.spec_cipher_key_iv_valid(),
    {
        match (&self.cipher_key, &self.cipher_iv) {
            (Some(key), Some(iv)) => !is_all_ff(key.as_slice()) && !is_all_ff(iv.as_slice()),
            _ => false,
        }
    }

    pub fn get_pattern(&self) -> (r: &[u8; 8])
        ensures
            *r == self.valid_pattern,
    {
        &self.valid_pattern
    }

    pub fn get_cipher_key(&self) -> (r: Option<&[u8; 32]>)
        ensures
            r == match self.cipher_key {
                Some(k) => Some(&k),
                None => None,
            },
    {
        match &self.cipher_key {
            Some(k) => Some(k),
            None => None,
        }
    }

    pub fn get_cipher_iv(&self) -> (r: Option<&[u8; 16]>)
        ensures
            r == match self.cipher_iv {
                Some(k) => Some(&k),
                None => None,
            },
    {
        match &self.cipher_iv {
            Some(k) => Some(k),
            None => None,
        }
    }

    pub fn set_cipher_iv(&mut self, iv: Option<[u8; 16]>)
        ensures
            *final(self) == (FST { cipher_iv: iv, ..*old(self) }),
    {
        self.cipher_iv = iv;
    }

    pub fn set_cipher_key(&mut self, key: Option<[u8; 32]>)
        ensures
            *final(self) == (FST { cipher_key: key, ..*old(self) }),
    {
        self.cipher_key = key;
    }

    pub fn set_valid_pattern(&mut self, pattern: [u8; 8])
        ensures
            *final(self) == (FST { valid_pattern: pattern, ..*old(self) }),
    {
        self.valid_pattern = pattern;
    }
}

} // verus!

//! The boot loader image: key block, header, one entry header, code and signature.
use vstd::prelude::*;

use crate::bytes::{align_pad, fill, le32, get_array, write_aligned, write_fill, write_slice, ByteReader};
use crate::error::{Error, StateIssue};
use crate::hash::{array_to_vec, hmac_sha256_array, hmac_sha256_of};
use crate::header::{EntryHeader, ImageHeader, KeyBlock};
use crate::image::AsImage;
use crate::ota::pad_zero;

verus! {

/// The boot loader image.
#[derive(Debug)]
pub struct BootImage {
    pub keyblock: KeyBlock,
    pub header: ImageHeader,
    pub entry: EntryHeader,
    pub text: Vec<u8>,
    pub hash: [u8; 32],
}

impl Default for BootImage {
    fn default() -> (r: Self)
        ensures
            r.keyblock.enc_pubkey@ == fill(0xFF, 32),
            r.header.segment_size == 0,
            r.header.next_offset == 0xFFFF_FFFF,
            r.entry == (EntryHeader { length: 0, load_address: 0, entry_address: None }),
            r.text@.len() == 0,
            r.hash@ == fill(0xFF, 32),
    {
        let r = BootImage {
            keyblock: KeyBlock::default(),
            header: ImageHeader::default(),
            entry: EntryHeader::default(),
            text: Vec::new(),
            hash: [0xFF; 32],
        };
        assert(r.hash@ =~= fill(0xFF, 32));
        r
    }
}

impl BootImage {
    /// The zeros that fill the code up to the stored segment size less the entry header.
    pub open spec fn text_gap(&self) -> int {
        let room = self.header.segment_size - 0x20;
        if room > self.text@.len() {
            room - self.text@.len()
        } else {
            0
        }
    }

    /// The bytes of the image when its encoding starts at offset `pos`: the code is
    /// filled with zeros to the stored segment size less the entry header, then to
    /// a 0x20 boundary of the stream, and the hash follows.
    pub open spec fn encoded_at(&self, pos: int) -> Seq<u8> {
        let end = pos + 192 + self.text@.len() + self.text_gap();
        self.keyblock.encoded() + self.header.encoded() + self.entry.encoded() + self.text@ + fill(
            0,
            self.text_gap() as nat,
        ) + fill(0, align_pad(end, 0x20) as nat) + self.hash@
    }

    /// The bytes that the signature covers: everything before the hash, the code
    /// padded with zeros to a 0x20 boundary and then up to the computed segment size.
    pub open spec fn signed_bytes(&self) -> Seq<u8> {
        pad_zero(
            self.keyblock.encoded() + self.header.encoded() + self.entry.encoded() + self.text@
                + fill(0, align_pad(192 + self.text@.len() as int, 0x20) as nat),
            160 + self.spec_segment_size(),
        )
    }

    /// Where the code of an image decoded at `p` in `d` ends.
    pub open spec fn text_end(d: Seq<u8>, p: int) -> int {
        p + 192 + crate::bytes::le32(d.subrange(p + 64, p + 160), 0) - 0x20
    }

    /// Where the hash of an image decoded at `p` in `d` starts.
    pub open spec fn hash_start(d: Seq<u8>, p: int) -> int {
        let t = Self::text_end(d, p);
        t + align_pad(t, 0x20)
    }

    /// A boot image decodes at `p` in `d`: its header does, its segment holds the
    /// entry header, and the hash lies within `d`.
    pub open spec fn decodable_at(d: Seq<u8>, p: int) -> bool {
        let hw = d.subrange(p + 64, p + 160);
        &&& p + 192 <= d.len()
        &&& ImageHeader::decodable(hw)
        &&& crate::bytes::le32(hw, 0) >= 0x20
        &&& Self::hash_start(d, p) + 32 <= d.len()
    }

    /// `self` is what decoding at `p` in `d` gives.
    pub open spec fn parsed_at(&self, d: Seq<u8>, p: int) -> bool {
        let t = Self::text_end(d, p);
        let h = t + align_pad(t, 0x20);
        &&& self.keyblock.parsed_from(d.subrange(p, p + 64))
        &&& self.header.parsed_from(d.subrange(p + 64, p + 160))
        &&& self.entry.parsed_from(d.subrange(p + 160, p + 192))
        &&& self.text@ == d.subrange(p + 192, t)
        &&& self.hash@ == d.subrange(h, h + 32)
    }

    pub fn get_text(&self) -> (r: &[u8])
        ensures
            r@ == self.text@,
    {
        self.text.as_slice()
    }

    pub fn get_hash(&self) -> (r: &[u8])
        ensures
            r@ == self.hash@,
    {
        self.hash.as_slice()
    }

    pub fn set_text(&mut self, text: Vec<u8>)
        ensures
            final(self).text@ == text@,
            final(self).header == old(self).header,
            final(self).entry == old(self).entry,
            final(self).hash == old(self).hash,
    {
        self.text = text;
    }

    /// Decodes a boot image at the cursor: the code is the segment less the entry
    /// header, and the hash follows at the next 0x20 boundary.
    pub fn read_from(r: &mut ByteReader) -> (res: Result<BootImage, Error>)
        ensures
            final(r).data@ == old(r).data@,
            res is Ok <==> Self::decodable_at(old(r).data@, old(r).pos as int),
            res matches Ok(x) ==> x.parsed_at(old(r).data@, old(r).pos as int) && final(r).pos
                == Self::hash_start(old(r).data@, old(r).pos as int) + 32,
    {
        let keyblock = KeyBlock::read_from(r)?;
        let header = ImageHeader::read_from(r)?;
        let entry = EntryHeader::read_from(r)?;
        if header.segment_size < 0x20 {
            return Err(Error::InvalidState(StateIssue::LengthTooSmall));
        }
        let text = r.read_vec((header.segment_size - 0x20) as usize)?;
        r.skip_aligned(0x20)?;
        let hash = r.read_array::<32>()?;
        Ok(BootImage { keyblock, header, entry, text, hash })
    }

    /// Encodes the image: the code is filled with zeros to the stored segment size
    /// less the entry header and then to a 0x20 boundary, and the hash follows.
    pub fn write_to(&self, out: &mut Vec<u8>)
        ensures
            final(out)@ == old(out)@ + self.encoded_at(old(out)@.len() as int),
    {
        self.keyblock.write_to(out);
        self.header.write_to(out);
        self.entry.write_to(out);
        write_slice(out, self.text.as_slice());
        let room: u32 = if self.header.segment_size >= 0x20 {
            self.header.segment_size - 0x20
        } else {
            0
        };
        let gap = if room as usize > self.text.len() {
            room as usize - self.text.len()
        } else {
            0
        };
        write_fill(out, 0, gap as u64);
        write_aligned(out, 0x20, 0);
        write_slice(out, self.hash.as_slice());
        assert(final(out)@ =~= old(out)@ + self.encoded_at(old(out)@.len() as int));
    }
}

impl AsImage for BootImage {
    open spec fn size_fits(&self) -> bool {
        self.text@.len() + 0x40 <= u32::MAX
    }

    /// The code plus the entry header, rounded up past the next multiple of 0x20:
    /// an aligned size still gains a full 0x20.
    open spec fn spec_segment_size(&self) -> u32 {
        let n = self.text@.len() + 0x20;
        (n + (0x20 - n % 0x20)) as u32
    }

    open spec fn stored_segment_size(&self) -> u32 {
        self.header.segment_size
    }

    open spec fn stored_signature(&self) -> Seq<u8> {
        self.hash@
    }

    open spec fn signature_ready(&self, key: Option<Seq<u8>>) -> bool {
        key is Some && self.size_fits()
    }

    open spec fn signature_of(&self, key: Option<Seq<u8>>) -> Seq<u8> {
        match key {
            Some(k) => hmac_sha256_of(k, self.signed_bytes()),
            None => Seq::empty(),
        }
    }

    open spec fn signature_error(&self, key: Option<Seq<u8>>) -> Error {
        if key is None {
            Error::InvalidState(StateIssue::MissingKey)
        } else {
            Error::InvalidState(StateIssue::SizeOverflow)
        }
    }

    open spec fn same_but_signature(&self, other: &Self) -> bool {
        &&& self.keyblock == other.keyblock
        &&& self.header == other.header
        &&& self.entry == other.entry
        &&& self.text == other.text
    }

    open spec fn same_but_size(&self, other: &Self) -> bool {
        &&& self.keyblock == other.keyblock
        &&& self.header == (ImageHeader { segment_size: self.header.segment_size, ..other.header })
        &&& self.entry == (EntryHeader { length: self.entry.length, ..other.entry })
        &&& self.text == other.text
        &&& self.hash == other.hash
    }

    fn build_segment_size(&self) -> (r: u32) {
        let n = self.text.len() as u32 + 0x20;
        n + (0x20 - n % 0x20)
    }

    /// Stores the segment size, and in the entry header the size less the entry
    /// header (wrapping, as a `u32` does, when the size is smaller).
    fn set_segment_size(&mut self, size: u32) {
        self.header.segment_size = size;
        self.entry.length = if size >= 0x20 {
            size - 0x20
        } else {
            (size as u64 + 0x1_0000_0000 - 0x20) as u32
        };
    }

    /// HMAC-SHA256 of what precedes the hash, padded to the computed segment size.
    /// The key is mandatory.
    fn build_signature(&self, key: Option<&[u8]>) -> (r: Result<Vec<u8>, Error>) {
        let k = match key {
            Some(k) => k,
            None => return Err(Error::InvalidState(StateIssue::MissingKey)),
        };
        if self.text.len() > 0xFFFF_FFFF - 0x40 {
            return Err(Error::InvalidState(StateIssue::SizeOverflow));
        }
        let size = self.build_segment_size();
        let mut buffer: Vec<u8> = Vec::new();
        self.keyblock.write_to(&mut buffer);
        self.header.write_to(&mut buffer);
        self.entry.write_to(&mut buffer);
        write_slice(&mut buffer, self.text.as_slice());
        write_aligned(&mut buffer, 0x20, 0);
        let total: u64 = 160 + size as u64;
        if (buffer.len() as u64) < total {
            let gap = total - buffer.len() as u64;
            write_fill(&mut buffer, 0, gap);
        }
        assert(buffer@ =~= self.signed_bytes());
        let sig = hmac_sha256_array(k, buffer.as_slice())?;
        Ok(array_to_vec(&sig))
    }

    fn set_signature(&mut self, signature: &[u8]) {
        self.hash = get_array::<32>(signature, 0);
        assert(signature@.subrange(0, 32) =~= signature@);
    }
}

/// Decoding the encoding of a boot image whose segment holds its code gives back
/// its key block, header, entry header and hash, and its code followed by the
/// zeros that fill the segment.
#[verifier::rlimit(60)]
pub proof fn lemma_boot_round_trip(b: &BootImage, pre: Seq<u8>, post: Seq<u8>)
    requires
        b.text@.len() + 0x20 <= b.header.segment_size,
        b.entry.valid(),
    ensures
        BootImage::decodable_at(pre + b.encoded_at(pre.len() as int) + post, pre.len() as int),
        b.keyblock.parsed_from(
            (pre + b.encoded_at(pre.len() as int) + post).subrange(pre.len() as int, pre.len() as int + 64),
        ),
        b.header.parsed_from(
            (pre + b.encoded_at(pre.len() as int) + post).subrange(pre.len() as int + 64, pre.len() as int + 160),
        ),
        b.entry.parsed_from(
            (pre + b.encoded_at(pre.len() as int) + post).subrange(pre.len() as int + 160, pre.len() as int + 192),
        ),
        (pre + b.encoded_at(pre.len() as int) + post).subrange(
            pre.len() as int + 192,
            pre.len() as int + 192 + b.text@.len(),
        ) == b.text@,
        (pre + b.encoded_at(pre.len() as int) + post).subrange(
            pre.len() as int + 192 + b.text@.len(),
            BootImage::text_end(pre + b.encoded_at(pre.len() as int) + post, pre.len() as int),
        ) == fill(0, b.text_gap() as nat),
        (pre + b.encoded_at(pre.len() as int) + post).subrange(
            BootImage::hash_start(pre + b.encoded_at(pre.len() as int) + post, pre.len() as int),
            BootImage::hash_start(pre + b.encoded_at(pre.len() as int) + post, pre.len() as int)
                + 32,
        ) == b.hash@,
        BootImage::hash_start(pre + b.encoded_at(pre.len() as int) + post, pre.len() as int) + 32
            == pre.len() as int + b.encoded_at(pre.len() as int).len(),
{
    let p = pre.len() as int;
    let e = b.encoded_at(p);
    let d = pre + e + post;
    let n = b.text@.len() as int;
    let gap = b.text_gap();
    b.keyblock.lemma_round_trip();
    b.header.lemma_round_trip();
    b.entry.lemma_round_trip();
    assert(d.subrange(p, p + 64) =~= b.keyblock.encoded());
    assert(d.subrange(p + 64, p + 160) =~= b.header.encoded());
    assert(d.subrange(p + 160, p + 192) =~= b.entry.encoded());
    assert(le32(d.subrange(p + 64, p + 160), 0) == b.header.segment_size);
    assert(BootImage::text_end(d, p) == p + 192 + n + gap);
    let end = p + 192 + n + gap;
    let pad = align_pad(end, 0x20);
    assert(d.subrange(p + 192, p + 192 + n) =~= b.text@);
    assert(d.subrange(p + 192 + n, end) =~= fill(0, gap as nat));
    assert(d.subrange(end + pad, end + pad + 32) =~= b.hash@);
}

} // verus!

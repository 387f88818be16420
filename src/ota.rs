//! Sub-images and OTA images: chained, signed firmware units.
use vstd::prelude::*;

use crate::bytes::{
    canonical_opt, lemma_le32_window, lemma_sentinel_round_trip, u32_bytes, align_pad, fill, le32, sentinel_bytes, sentinel_opt, opt_view, write_aligned, write_fill,
    write_optional, write_slice, write_u32, ByteReader,
};
use crate::enums::HashAlgo;
use crate::error::{Error, StateIssue, Unsupported};
use crate::fst::FST;
use crate::hash::{digest_of, key_ok, key_view};
use crate::header::{ImageHeader, KeyBlock};
use crate::image::{AsImage, EncryptedOr};
use crate::section::{lemma_section_round_trip, Section};

verus! {

/// The alignment after a sub-image that another one follows.
pub const SUBIMAGE_ALIGN_NEXT: usize = 0x4000;

/// The alignment after the last sub-image.
pub const SUBIMAGE_ALIGN_LAST: usize = 0x40;

/// The byte that pads a sub-image to its alignment.
pub const SUBIMAGE_FILL: u8 = 0x87;

/// `x` filled up with zeros to `n` bytes (left as it is when not shorter).
pub open spec fn pad_zero(x: Seq<u8>, n: int) -> Seq<u8> {
    if x.len() < n {
        x + fill(0, (n - x.len()) as nat)
    } else {
        x
    }
}

/// The encodings of `secs` written one after another from offset `pos`.
pub open spec fn sections_bytes_at(secs: Seq<Section>, pos: int) -> Seq<u8>
    decreases secs.len(),
{
    if secs.len() == 0 {
        Seq::empty()
    } else {
        let prev = sections_bytes_at(secs.drop_last(), pos);
        prev + secs.last().encoded_at(pos + prev.len())
    }
}

/// The space that `secs` take by their computed sizes.
pub open spec fn sections_size(secs: Seq<Section>) -> int
    decreases secs.len(),
{
    if secs.len() == 0 {
        0
    } else {
        sections_size(secs.drop_last()) + 0x60 + secs.last().spec_aligned_length()
    }
}

/// Where the sections `secs`, decoded one after another from `p`, end in `d`.
pub open spec fn sections_end(secs: Seq<Section>, d: Seq<u8>, p: int) -> int
    decreases secs.len(),
{
    if secs.len() == 0 {
        p
    } else {
        Section::end_at(d, sections_end(secs.drop_last(), d, p))
    }
}

/// `secs` are what decoding sections one after another from `p` in `d` gives.
pub open spec fn sections_parsed(secs: Seq<Section>, d: Seq<u8>, p: int) -> bool
    decreases secs.len(),
{
    if secs.len() == 0 {
        true
    } else {
        sections_parsed(secs.drop_last(), d, p) && secs.last().parsed_at(
            d,
            sections_end(secs.drop_last(), d, p),
        )
    }
}

/// Every section but the last says that another follows; the last says none does.
pub open spec fn sections_chained(secs: Seq<Section>) -> bool {
    &&& secs.len() >= 1
    &&& forall|i: int| 0 <= i < secs.len() - 1 ==> #[trigger] secs[i].header.next_offset != 0xFFFF_FFFF
    &&& secs.last().header.next_offset == 0xFFFF_FFFF
}

/// The section stored at `p` in `d` says that another follows it.
pub open spec fn section_has_next(d: Seq<u8>, p: int) -> bool {
    le32(d.subrange(p, p + 96), 4) != 0xFFFF_FFFF
}

/// The chain of sections that starts at `p` in `d` decodes: each section does, up
/// to the first that says no other follows.
pub open spec fn chain_decodable(d: Seq<u8>, p: int) -> bool
    decreases d.len() - p,
{
    if 0 <= p && Section::decodable_at(d, p) {
        if section_has_next(d, p) && Section::end_at(d, p) > p {
            chain_decodable(d, Section::end_at(d, p))
        } else {
            true
        }
    } else {
        false
    }
}

/// Where the chain of sections that starts at `p` in `d` ends.
pub open spec fn chain_end(d: Seq<u8>, p: int) -> int
    decreases d.len() - p,
{
    if 0 <= p && Section::decodable_at(d, p) && section_has_next(d, p) && Section::end_at(d, p)
        > p {
        chain_end(d, Section::end_at(d, p))
    } else {
        Section::end_at(d, p)
    }
}

/// A section's computed size never shrinks the running total.
pub proof fn lemma_sections_size_prefix(secs: Seq<Section>, i: int)
    requires
        0 <= i <= secs.len(),
    ensures
        sections_size(secs.subrange(0, i)) <= sections_size(secs),
        sections_size(secs) >= 0,
    decreases secs.len(),
{
    if secs.len() > 0 {
        if i == secs.len() {
            assert(secs.subrange(0, i) =~= secs);
            lemma_sections_size_prefix(secs.drop_last(), i - 1);
        } else {
            lemma_sections_size_prefix(secs.drop_last(), i);
            assert(secs.drop_last().subrange(0, i) =~= secs.subrange(0, i));
        }
    }
}

/// The bytes of an optional-encrypted security table.
pub open spec fn fst_bytes(fst: EncryptedOr<FST>) -> Seq<u8> {
    match fst {
        EncryptedOr::Encrypted(v) => v@,
        EncryptedOr::Plain(f) => f.encoded(),
    }
}

/// The bytes of an optional-encrypted section list written from offset `pos`.
pub open spec fn body_bytes_at(sections: EncryptedOr<Vec<Section>>, pos: int) -> Seq<u8> {
    match sections {
        EncryptedOr::Encrypted(v) => v@,
        EncryptedOr::Plain(secs) => sections_bytes_at(secs@, pos),
    }
}

/// A signed firmware unit: header, security table, sections and trailing hash.
/// When the header says it is encrypted, table and sections are opaque bytes.
#[derive(Debug)]
pub struct SubImage {
    pub header: ImageHeader,
    pub fst: EncryptedOr<FST>,
    pub sections: EncryptedOr<Vec<Section>>,
    pub hash: [u8; 32],
}

impl Default for SubImage {
    fn default() -> (r: Self)
        ensures
            r.header.segment_size == 0,
            r.header.next_offset == 0xFFFF_FFFF,
            r.fst matches EncryptedOr::Plain(f) && f.hash_algo == Some(HashAlgo::Sha256),
            r.sections matches EncryptedOr::Plain(s) && s@.len() == 0,
            r.hash@ == fill(0xFF, 32),
    {
        let r = SubImage {
            header: ImageHeader::default(),
            fst: EncryptedOr::Plain(FST::default()),
            sections: EncryptedOr::Plain(Vec::new()),
            hash: [0xFF; 32],
        };
        assert(r.hash@ =~= fill(0xFF, 32));
        r
    }
}

/// Appends the sections one after another.
fn write_sections(secs: &Vec<Section>, out: &mut Vec<u8>)
    ensures
        final(out)@ == old(out)@ + sections_bytes_at(secs@, old(out)@.len() as int),
{
    let ghost pos = old(out)@.len() as int;
    let mut i: usize = 0;
    while i < secs.len()
        invariant
            i <= secs@.len(),
            pos == old(out)@.len(),
            out@ == old(out)@ + sections_bytes_at(secs@.subrange(0, i as int), pos),
        decreases secs@.len() - i,
    {
        secs[i].write_to(out);
        assert(secs@.subrange(0, i + 1).drop_last() =~= secs@.subrange(0, i as int));
        i = i + 1;
        assert(out@ =~= old(out)@ + sections_bytes_at(secs@.subrange(0, i as int), pos));
    }
    assert(secs@.subrange(0, secs@.len() as int) =~= secs@);
}

/// Appends an optional-encrypted security table.
fn write_fst(fst: &EncryptedOr<FST>, out: &mut Vec<u8>)
    ensures
        final(out)@ == old(out)@ + fst_bytes(*fst),
{
    match fst {
        EncryptedOr::Encrypted(v) => write_slice(out, v.as_slice()),
        EncryptedOr::Plain(f) => f.write_to(out),
    }
}

/// Appends an optional-encrypted section list.
fn write_body(sections: &EncryptedOr<Vec<Section>>, out: &mut Vec<u8>)
    ensures
        final(out)@ == old(out)@ + body_bytes_at(*sections, old(out)@.len() as int),
{
    match sections {
        EncryptedOr::Encrypted(v) => write_slice(out, v.as_slice()),
        EncryptedOr::Plain(secs) => write_sections(secs, out),
    }
}

impl SubImage {
    /// The alignment that follows this sub-image.
    pub open spec fn spec_align(&self) -> int {
        if self.header.next_offset != 0xFFFF_FFFF {
            0x4000
        } else {
            0x40
        }
    }

    /// The bytes of the sub-image when its encoding starts at offset `pos`.
    #[verifier::opaque]
    pub open spec fn encoded_at(&self, pos: int) -> Seq<u8> {
        let body = body_bytes_at(self.sections, pos + 96 + fst_bytes(self.fst).len());
        let len = 96 + fst_bytes(self.fst).len() + body.len() + 32;
        self.header.encoded() + fst_bytes(self.fst) + body + self.hash@ + fill(
            SUBIMAGE_FILL,
            align_pad(pos + len, self.spec_align()) as nat,
        )
    }

    /// The bytes that the signature covers: header, table and sections, filled up
    /// with zeros to the header plus the computed segment size.
    pub open spec fn signed_bytes(&self) -> Seq<u8> {
        pad_zero(
            self.header.encoded() + fst_bytes(self.fst) + body_bytes_at(
                self.sections,
                96 + fst_bytes(self.fst).len() as int,
            ),
            96 + self.spec_segment_size(),
        )
    }

    /// The hash algorithm that signs this sub-image, when its table is decoded.
    pub open spec fn spec_hash_algo(&self) -> Option<HashAlgo> {
        match self.fst {
            EncryptedOr::Plain(f) => f.hash_algo,
            EncryptedOr::Encrypted(_) => None,
        }
    }

    /// Where the hash of the sub-image stored at `p` in `d` ends.
    pub open spec fn hash_end_from(d: Seq<u8>, p: int) -> int {
        let hw = d.subrange(p, p + 96);
        if hw[9] != 0 {
            p + 96 + le32(hw, 0) + 32
        } else {
            chain_end(d, p + 192) + 32
        }
    }

    /// The alignment that follows the sub-image stored at `p` in `d`.
    pub open spec fn align_from(d: Seq<u8>, p: int) -> int {
        if le32(d.subrange(p, p + 96), 4) != 0xFFFF_FFFF {
            0x4000
        } else {
            0x40
        }
    }

    /// Where the sub-image stored at `p` in `d` ends, with its alignment.
    pub open spec fn end_from(d: Seq<u8>, p: int) -> int {
        let q = Self::hash_end_from(d, p);
        q + align_pad(q, Self::align_from(d, p))
    }

    /// A sub-image decodes at `p` in `d`: its header; then either an opaque table
    /// and a blob that fill a segment of at least 0x60 bytes, or a table and a
    /// chain of sections; then the hash and the alignment after it.
    pub open spec fn decodable_at(d: Seq<u8>, p: int) -> bool {
        let hw = d.subrange(p, p + 96);
        &&& p + 96 <= d.len()
        &&& ImageHeader::decodable(hw)
        &&& if hw[9] != 0 {
            le32(hw, 0) >= 0x60 && p + 96 + le32(hw, 0) <= d.len()
        } else {
            &&& p + 192 <= d.len()
            &&& FST::decodable(d.subrange(p + 96, p + 192))
            &&& chain_decodable(d, p + 192)
        }
        &&& Self::end_from(d, p) <= d.len()
    }

    /// Where the hash of this sub-image, decoded at `p` in `d`, ends.
    pub open spec fn hash_end(&self, d: Seq<u8>, p: int) -> int {
        match self.sections {
            EncryptedOr::Plain(secs) if !self.header.is_encrypt => sections_end(secs@, d, p + 192)
                + 32,
            _ => p + 96 + self.header.segment_size + 32,
        }
    }

    /// Where this sub-image, decoded at `p` in `d`, ends with its alignment.
    pub open spec fn end_at(&self, d: Seq<u8>, p: int) -> int {
        let q = self.hash_end(d, p);
        q + align_pad(q, self.spec_align())
    }

    /// `self` is what decoding at `p` in `d` gives, its hash ending at `q`.
    pub open spec fn parsed_at(&self, d: Seq<u8>, p: int, q: int) -> bool {
        let seg = self.header.segment_size as int;
        &&& self.header.parsed_from(d.subrange(p, p + 96))
        &&& if self.header.is_encrypt {
            &&& self.fst matches EncryptedOr::Encrypted(v) && v@ == d.subrange(p + 96, p + 192)
            &&& self.sections matches EncryptedOr::Encrypted(b) && b@ == d.subrange(
                p + 192,
                p + 96 + seg,
            )
            &&& q == p + 96 + seg + 32
        } else {
            &&& self.fst matches EncryptedOr::Plain(f) && f.parsed_from(d.subrange(p + 96, p + 192))
            &&& self.sections matches EncryptedOr::Plain(secs) && sections_chained(secs@)
                && sections_parsed(secs@, d, p + 192) && q == sections_end(secs@, d, p + 192) + 32
        }
        &&& self.hash@ == d.subrange(q - 32, q)
    }

    pub fn get_hash(&self) -> (r: &[u8; 32])
        ensures
            *r == self.hash,
    {
        &self.hash
    }

    /// The decoded sections; an encrypted sub-image has none to give.
    pub fn get_sections(&self) -> (r: Result<&[Section], Error>)
        ensures
            self.sections matches EncryptedOr::Plain(s) ==> r matches Ok(x) && x@ == s@,
            self.sections is Encrypted ==> r == Err::<&[Section], Error>(
                Error::NotImplemented(Unsupported::EncryptedSubImage),
            ),
    {
        match &self.sections {
            EncryptedOr::Plain(s) => Ok(s.as_slice()),
            EncryptedOr::Encrypted(_) => Err(Error::NotImplemented(Unsupported::EncryptedSubImage)),
        }
    }

    /// The decoded sections, to change in place; an encrypted sub-image has none.
    pub fn get_sections_mut(&mut self) -> (r: Result<&mut [Section], Error>)
        ensures
            r is Ok <==> old(self).sections is Plain,
            r is Ok ==> r->Ok_0@ == old(self).sections->Plain_0@ && final(self).sections is Plain
                && final(self).sections->Plain_0@ == final(r->Ok_0)@,
            r is Err ==> r == Err::<&mut [Section], Error>(
                Error::NotImplemented(Unsupported::EncryptedSubImage),
            ) && final(self).sections == old(self).sections,
            final(self).header == old(self).header,
            final(self).hash == old(self).hash,
    {
        match &mut self.sections {
            EncryptedOr::Plain(s) => Ok(s.as_mut_slice()),
            EncryptedOr::Encrypted(_) => Err(Error::NotImplemented(Unsupported::EncryptedSubImage)),
        }
    }

    /// Appends a section; an encrypted sub-image is refused and left as it is.
    pub fn add_section(&mut self, section: Section) -> (r: Result<(), Error>)
        ensures
            r is Ok <==> old(self).sections is Plain,
            old(self).sections matches EncryptedOr::Plain(s) ==> final(self).sections matches EncryptedOr::Plain(
                t,
            ) && t@ == s@.push(section),
            r is Err ==> final(self).sections == old(self).sections,
            final(self).header == old(self).header,
    {
        match &mut self.sections {
            EncryptedOr::Plain(s) => {
                s.push(section);
                Ok(())
            },
            EncryptedOr::Encrypted(_) => Err(Error::NotImplemented(Unsupported::EncryptedSubImage)),
        }
    }

    /// Removes the section at `index`; an encrypted sub-image is refused.
    pub fn rem_section_at(&mut self, index: usize) -> (r: Result<(), Error>)
        requires
            old(self).sections matches EncryptedOr::Plain(s) ==> index < s@.len(),
        ensures
            r is Ok <==> old(self).sections is Plain,
            old(self).sections matches EncryptedOr::Plain(s) ==> final(self).sections matches EncryptedOr::Plain(
                t,
            ) && t@ == s@.remove(index as int),
            r is Err ==> final(self).sections == old(self).sections,
            final(self).header == old(self).header,
    {
        match &mut self.sections {
            EncryptedOr::Plain(s) => {
                s.remove(index);
                Ok(())
            },
            EncryptedOr::Encrypted(_) => Err(Error::NotImplemented(Unsupported::EncryptedSubImage)),
        }
    }

    /// The section at `index`, if there is one and the sub-image is not encrypted.
    pub fn get_section(&self, index: usize) -> (r: Option<&Section>)
        ensures
            self.sections matches EncryptedOr::Plain(s) ==> (index < s@.len() ==> r == Some(
                &s@[index as int],
            )),
            !(self.sections matches EncryptedOr::Plain(s) && index < s@.len()) ==> r is None,
    {
        match &self.sections {
            EncryptedOr::Plain(s) => {
                if index < s.len() {
                    Some(&s[index])
                } else {
                    None
                }
            },
            EncryptedOr::Encrypted(_) => None,
        }
    }

    /// The section at `index`, to change in place, if there is one and the sub-image
    /// is not encrypted.
    pub fn get_section_mut(&mut self, index: usize) -> (r: Option<&mut Section>)
        ensures
            r is Some <==> (old(self).sections is Plain && index < old(self).sections->Plain_0@.len()),
            r is Some ==> *r->Some_0 == old(self).sections->Plain_0@[index as int]
                && final(self).sections is Plain && final(self).sections->Plain_0@
                == old(self).sections->Plain_0@.update(index as int, *final(r->Some_0)),
            r is None ==> final(self).sections == old(self).sections,
            final(self).header == old(self).header,
            final(self).hash == old(self).hash,
    {
        match &mut self.sections {
            EncryptedOr::Plain(s) => {
                if index < s.len() {
                    Some(&mut s[index])
                } else {
                    None
                }
            },
            EncryptedOr::Encrypted(_) => None,
        }
    }

    /// The digest under `algo` (keyed when `key` is given) of the sub-image as it
    /// stands at the cursor: its header and the segment that the header announces.
    pub fn signature_from_stream(&self, r: &mut ByteReader, algo: HashAlgo, key: Option<&[u8]>) -> (res:
        Result<Vec<u8>, Error>)
        requires
            key_ok(key),
        ensures
            final(r).data@ == old(r).data@,
            res matches Ok(sig) ==> old(r).has(96 + self.header.segment_size) && sig@ == digest_of(
                algo,
                key_view(key),
                old(r).window(96 + self.header.segment_size),
            ),
            !old(r).has(96 + self.header.segment_size) ==> res == Err::<Vec<u8>, Error>(
                Error::UnexpectedEof,
            ),
            old(r).has(96 + self.header.segment_size) && algo == HashAlgo::Other ==> res == Err::<
                Vec<u8>,
                Error,
            >(Error::UnsupportedHashAlgo(0xFF)),
            old(r).has(96 + self.header.segment_size) && algo != HashAlgo::Other ==> res is Ok
                || res == Err::<Vec<u8>, Error>(Error::Crypto),
    {
        let seg = self.header.segment_size as usize;
        if seg > r.len() || r.len() - seg < 96 {
            return Err(Error::UnexpectedEof);
        }
        let buffer = r.read_vec(96 + seg)?;
        algo.compute_hash(buffer.as_slice(), key)
    }

    /// Decodes a sub-image at the cursor and skips its trailing alignment.
    #[verifier::rlimit(60)]
    pub fn read_from(r: &mut ByteReader) -> (res: Result<SubImage, Error>)
        requires
            old(r).pos <= old(r).data@.len(),
        ensures
            final(r).data@ == old(r).data@,
            res matches Ok(x) ==> x.parsed_at(
                old(r).data@,
                old(r).pos as int,
                x.hash_end(old(r).data@, old(r).pos as int),
            ) && final(r).pos == x.end_at(old(r).data@, old(r).pos as int),
            res is Ok <==> Self::decodable_at(old(r).data@, old(r).pos as int),
            res is Ok ==> final(r).pos == Self::end_from(old(r).data@, old(r).pos as int),
            res is Ok ==> old(r).pos < final(r).pos <= final(r).data@.len(),
            !old(r).has(96) ==> res is Err,
    {
        let ghost d = r.data@;
        let ghost p = r.pos as int;
        let header = ImageHeader::read_from(r)?;
        let ghost hw = d.subrange(p, p + 96);
        assert(header.is_encrypt == (hw[9] != 0));
        let fst;
        let sections;
        if header.is_encrypt {
            let f = r.read_vec(0x60)?;
            if header.segment_size < 0x60 {
                return Err(Error::InvalidState(StateIssue::LengthTooSmall));
            }
            let b = r.read_vec((header.segment_size - 0x60) as usize)?;
            fst = EncryptedOr::Encrypted(f);
            sections = EncryptedOr::Encrypted(b);
        } else {
            let f = FST::read_from(r)?;
            let ghost start = r.pos as int;
            let mut secs: Vec<Section> = Vec::new();
            loop
                invariant_except_break
                    forall|i: int| 0 <= i < secs@.len() ==> #[trigger] secs@[i].header.next_offset != 0xFFFF_FFFF,
                    chain_decodable(d, start) == chain_decodable(d, r.pos as int),
                    chain_decodable(d, start) ==> chain_end(d, start) == chain_end(d, r.pos as int),
                invariant
                    r.data@ == d,
                    d == old(r).data@,
                    p == old(r).pos,
                    start == p + 192,
                    d.subrange(p, p + 96)[9] == 0,
                    start <= r.pos <= d.len(),
                    sections_parsed(secs@, d, start),
                    r.pos == sections_end(secs@, d, start),
                ensures
                    sections_chained(secs@),
                    chain_decodable(d, start),
                    chain_end(d, start) == r.pos,
                decreases d.len() - r.pos,
            {
                let ghost before = secs@;
                let ghost pos0 = r.pos as int;
                let s = match Section::read_from(r) {
                    Ok(s) => s,
                    Err(e) => {
                        assert(!chain_decodable(d, pos0));
                        assert(!Self::decodable_at(d, p));
                        return Err(e);
                    },
                };
                let more = s.header.has_next();
                assert(section_has_next(d, pos0) == more);
                secs.push(s);
                assert(secs@.drop_last() =~= before);
                if !more {
                    assert(forall|i: int| 0 <= i < secs@.len() - 1 ==> secs@[i] == before[i]);
                    break;
                }
            }
            fst = EncryptedOr::Plain(f);
            sections = EncryptedOr::Plain(secs);
        }
        let hash = r.read_array::<32>()?;
        let ghost q = r.pos as int;
        assert(q == Self::hash_end_from(d, p));
        let align = if header.has_next() {
            SUBIMAGE_ALIGN_NEXT
        } else {
            SUBIMAGE_ALIGN_LAST
        };
        r.skip_aligned(align)?;
        let x = SubImage { header, fst, sections, hash };
        assert(x.hash_end(d, p) == q);
        assert(x.parsed_at(d, p, q));
        Ok(x)
    }

    /// Encodes the sub-image and pads the output with `0x87` to its alignment.
    pub fn write_to(&self, out: &mut Vec<u8>)
        ensures
            final(out)@ == old(out)@ + self.encoded_at(old(out)@.len() as int),
    {
        self.header.write_to(out);
        write_fst(&self.fst, out);
        write_body(&self.sections, out);
        write_slice(out, self.hash.as_slice());
        let align = if self.header.has_next() {
            SUBIMAGE_ALIGN_NEXT
        } else {
            SUBIMAGE_ALIGN_LAST
        };
        write_aligned(out, align, SUBIMAGE_FILL);
        reveal(SubImage::encoded_at);
        assert(final(out)@ =~= old(out)@ + self.encoded_at(old(out)@.len() as int));
    }

    /// The computed segment size, when it fits in a `u32`.
    #[verifier::rlimit(60)]
    fn checked_segment_size(&self) -> (r: Option<u32>)
        ensures
            r is Some <==> self.size_fits(),
            r matches Some(v) ==> v == self.spec_segment_size(),
    {
        match &self.sections {
            EncryptedOr::Encrypted(v) => {
                if v.len() <= 0xFFFF_FFFF - 0x60 {
                    Some(0x60 + v.len() as u32)
                } else {
                    None
                }
            },
            EncryptedOr::Plain(secs) => {
                let mut total: u64 = 0;
                let mut i: usize = 0;
                while i < secs.len()
                    invariant
                        self.sections matches EncryptedOr::Plain(t) && t@ == secs@,
                        i <= secs@.len(),
                        total == sections_size(secs@.subrange(0, i as int)),
                        total + 0x60 <= u32::MAX,
                    decreases secs@.len() - i,
                {
                    proof {
                        lemma_sections_size_prefix(secs@, i + 1);
                        assert(secs@.subrange(0, i + 1).drop_last() =~= secs@.subrange(0, i as int));
                    }
                    assert(secs@.subrange(0, i + 1).last() == secs@[i as int]);
                    let n = secs[i].data.len();
                    if n > 0xFFFF_FFFF - 0xA0 {
                        return None;
                    }
                    let step = 0x60 + secs[i].build_aligned_length() as u64;
                    if total + step + 0x60 > 0xFFFF_FFFF {
                        return None;
                    }
                    total = total + step;
                    i = i + 1;
                }
                assert(secs@.subrange(0, secs@.len() as int) =~= secs@);
                Some(0x60 + total as u32)
            },
        }
    }
}

impl AsImage for SubImage {
    open spec fn size_fits(&self) -> bool {
        match self.sections {
            EncryptedOr::Encrypted(v) => 0x60 + v@.len() <= u32::MAX,
            EncryptedOr::Plain(secs) => 0x60 + sections_size(secs@) <= u32::MAX,
        }
    }

    /// The table plus the sections by their computed sizes, or plus the opaque bytes.
    open spec fn spec_segment_size(&self) -> u32 {
        match self.sections {
            EncryptedOr::Encrypted(v) => (0x60 + v@.len()) as u32,
            EncryptedOr::Plain(secs) => (0x60 + sections_size(secs@)) as u32,
        }
    }

    open spec fn stored_segment_size(&self) -> u32 {
        self.header.segment_size
    }

    open spec fn stored_signature(&self) -> Seq<u8> {
        self.hash@
    }

    open spec fn signature_ready(&self, key: Option<Seq<u8>>) -> bool {
        &&& self.spec_hash_algo() matches Some(a) && a != HashAlgo::Other
        &&& self.size_fits()
    }

    open spec fn signature_of(&self, key: Option<Seq<u8>>) -> Seq<u8> {
        match self.spec_hash_algo() {
            Some(a) => digest_of(a, key, self.signed_bytes()),
            None => Seq::empty(),
        }
    }

    open spec fn signature_error(&self, key: Option<Seq<u8>>) -> Error {
        match self.fst {
            EncryptedOr::Encrypted(_) => Error::NotImplemented(Unsupported::EncryptedSubImage),
            EncryptedOr::Plain(f) => match f.hash_algo {
                None => Error::NotImplemented(Unsupported::MissingHashAlgo),
                Some(HashAlgo::Other) => Error::UnsupportedHashAlgo(0xFF),
                Some(_) => Error::InvalidState(StateIssue::SizeOverflow),
            },
        }
    }

    open spec fn same_but_signature(&self, other: &Self) -> bool {
        self.header == other.header && self.fst == other.fst && self.sections == other.sections
    }

    open spec fn same_but_size(&self, other: &Self) -> bool {
        &&& self.header == (ImageHeader { segment_size: self.header.segment_size, ..other.header })
        &&& self.fst == other.fst
        &&& self.sections == other.sections
        &&& self.hash == other.hash
    }

    fn build_segment_size(&self) -> (r: u32) {
        match self.checked_segment_size() {
            Some(v) => v,
            None => 0,
        }
    }

    fn set_segment_size(&mut self, size: u32) {
        self.header.segment_size = size;
    }

    /// The digest that the table's hash algorithm gives, keyed when a key is given.
    /// An encrypted table, or one without a hash algorithm, is not supported.
    #[verifier::rlimit(60)]
    fn build_signature(&self, key: Option<&[u8]>) -> (r: Result<Vec<u8>, Error>) {
        let algo = match &self.fst {
            EncryptedOr::Encrypted(_) => {
                return Err(Error::NotImplemented(Unsupported::EncryptedSubImage));
            },
            EncryptedOr::Plain(f) => match f.hash_algo {
                Some(a) => a,
                None => return Err(Error::NotImplemented(Unsupported::MissingHashAlgo)),
            },
        };
        if algo == HashAlgo::Other {
            return Err(Error::UnsupportedHashAlgo(0xFF));
        }
        let size = match self.checked_segment_size() {
            Some(v) => v,
            None => return Err(Error::InvalidState(StateIssue::SizeOverflow)),
        };
        let mut buffer: Vec<u8> = Vec::new();
        self.header.write_to(&mut buffer);
        write_fst(&self.fst, &mut buffer);
        write_body(&self.sections, &mut buffer);
        let total: u64 = 0x60 + size as u64;
        if (buffer.len() as u64) < total {
            let gap = total - buffer.len() as u64;
            write_fill(&mut buffer, 0, gap);
        }
        assert(buffer@ =~= self.signed_bytes());
        algo.compute_hash(buffer.as_slice(), key)
    }

    fn set_signature(&mut self, signature: &[u8]) {
        self.hash = crate::bytes::get_array::<32>(signature, 0);
        assert(signature@.subrange(0, 32) =~= signature@);
    }
}


/// The encodings of `subs` written one after another from offset `pos`.
pub open spec fn subimages_bytes_at(subs: Seq<SubImage>, pos: int) -> Seq<u8>
    decreases subs.len(),
{
    if subs.len() == 0 {
        Seq::empty()
    } else {
        let prev = subimages_bytes_at(subs.drop_last(), pos);
        prev + subs.last().encoded_at(pos + prev.len())
    }
}

/// Where the sub-images `subs`, decoded one after another from `p`, end in `d`.
pub open spec fn subimages_end(subs: Seq<SubImage>, d: Seq<u8>, p: int) -> int
    decreases subs.len(),
{
    if subs.len() == 0 {
        p
    } else {
        subs.last().end_at(d, subimages_end(subs.drop_last(), d, p))
    }
}

/// `subs` are what decoding sub-images one after another from `p` in `d` gives.
pub open spec fn subimages_parsed(subs: Seq<SubImage>, d: Seq<u8>, p: int) -> bool
    decreases subs.len(),
{
    if subs.len() == 0 {
        true
    } else {
        let start = subimages_end(subs.drop_last(), d, p);
        subimages_parsed(subs.drop_last(), d, p) && subs.last().parsed_at(
            d,
            start,
            subs.last().hash_end(d, start),
        )
    }
}

/// The chain of sub-images that starts at `p` in `d` decodes: each sub-image does,
/// up to the first that says no other follows.
pub open spec fn subimage_chain_decodable(d: Seq<u8>, p: int) -> bool
    decreases d.len() - p,
{
    if 0 <= p && SubImage::decodable_at(d, p) {
        if SubImage::align_from(d, p) == 0x4000 && SubImage::end_from(d, p) > p {
            subimage_chain_decodable(d, SubImage::end_from(d, p))
        } else {
            true
        }
    } else {
        false
    }
}

/// Where the chain of sub-images that starts at `p` in `d` ends.
pub open spec fn subimage_chain_end(d: Seq<u8>, p: int) -> int
    decreases d.len() - p,
{
    if 0 <= p && SubImage::decodable_at(d, p) && SubImage::align_from(d, p) == 0x4000
        && SubImage::end_from(d, p) > p {
        subimage_chain_end(d, SubImage::end_from(d, p))
    } else {
        SubImage::end_from(d, p)
    }
}

/// Every sub-image but the last says that another follows; the last says none does.
pub open spec fn subimages_chained(subs: Seq<SubImage>) -> bool {
    &&& subs.len() >= 1
    &&& forall|i: int| 0 <= i < subs.len() - 1 ==> #[trigger] subs[i].header.next_offset != 0xFFFF_FFFF
    &&& subs.last().header.next_offset == 0xFFFF_FFFF
}

/// The sum of the bytes of `s`.
pub open spec fn byte_sum(s: Seq<u8>) -> int
    decreases s.len(),
{
    if s.len() == 0 {
        0
    } else {
        byte_sum(s.drop_last()) + s.last()
    }
}

/// The bytes of the five public-key slots.
pub open spec fn public_keys_bytes(keys: [Option<[u8; 32]>; 5]) -> Seq<u8> {
    sentinel_bytes(keys[0]) + sentinel_bytes(keys[1]) + sentinel_bytes(keys[2]) + sentinel_bytes(
        keys[3],
    ) + sentinel_bytes(keys[4])
}

/// Appends the five public-key slots.
fn write_public_keys(keys: &[Option<[u8; 32]>; 5], out: &mut Vec<u8>)
    ensures
        final(out)@ == old(out)@ + public_keys_bytes(*keys),
{
    write_optional(out, &keys[0]);
    write_optional(out, &keys[1]);
    write_optional(out, &keys[2]);
    write_optional(out, &keys[3]);
    write_optional(out, &keys[4]);
    assert(final(out)@ =~= old(out)@ + public_keys_bytes(*keys));
}

/// Appends the sub-images one after another.
fn write_subimages(subs: &Vec<SubImage>, out: &mut Vec<u8>)
    ensures
        final(out)@ == old(out)@ + subimages_bytes_at(subs@, old(out)@.len() as int),
{
    let ghost pos = old(out)@.len() as int;
    let mut i: usize = 0;
    while i < subs.len()
        invariant
            i <= subs@.len(),
            pos == old(out)@.len(),
            out@ == old(out)@ + subimages_bytes_at(subs@.subrange(0, i as int), pos),
        decreases subs@.len() - i,
    {
        subs[i].write_to(out);
        assert(subs@.subrange(0, i + 1).drop_last() =~= subs@.subrange(0, i as int));
        i = i + 1;
        assert(out@ =~= old(out)@ + subimages_bytes_at(subs@.subrange(0, i as int), pos));
    }
    assert(subs@.subrange(0, subs@.len() as int) =~= subs@);
}

/// An over-the-air firmware image: key block, five optional public keys, chained
/// sub-images and an optional trailing checksum.
#[derive(Debug)]
pub struct OTAImage {
    pub keyblock: KeyBlock,
    pub public_keys: [Option<[u8; 32]>; 5],
    pub subimages: Vec<SubImage>,
    pub checksum: Option<u32>,
}

impl Default for OTAImage {
    fn default() -> (r: Self)
        ensures
            r.keyblock.enc_pubkey@ == fill(0xFF, 32),
            r.keyblock.hash_pubkey@ == fill(0xFF, 32),
            forall|i: int| 0 <= i < 5 ==> r.public_keys@[i] is None,
            r.subimages@.len() == 0,
            r.checksum is None,
    {
        OTAImage {
            keyblock: KeyBlock::default(),
            public_keys: [None, None, None, None, None],
            subimages: Vec::new(),
            checksum: None,
        }
    }
}

impl OTAImage {
    /// The bytes of the image when its encoding starts at offset `pos`.
    pub open spec fn encoded_at(&self, pos: int) -> Seq<u8> {
        self.keyblock.encoded() + public_keys_bytes(self.public_keys) + subimages_bytes_at(
            self.subimages@,
            pos + 224,
        ) + crate::bytes::u32_bytes(
            match self.checksum {
                Some(c) => c,
                None => 0xFFFF_FFFF,
            },
        )
    }

    /// An OTA image decodes at `p` in `d`: the key block and five key slots are
    /// there, the chain of sub-images decodes, and four checksum bytes follow it.
    pub open spec fn decodable_at(d: Seq<u8>, p: int) -> bool {
        &&& 0 <= p
        &&& p + 224 <= d.len()
        &&& subimage_chain_decodable(d, p + 224)
        &&& subimage_chain_end(d, p + 224) + 4 <= d.len()
    }

    /// `self` is what decoding at `p` in `d` gives.
    pub open spec fn parsed_at(&self, d: Seq<u8>, p: int) -> bool {
        let end = subimages_end(self.subimages@, d, p + 224);
        &&& self.keyblock.parsed_from(d.subrange(p, p + 64))
        &&& forall|i: int|
            0 <= i < 5 ==> opt_view(#[trigger] self.public_keys@[i]) == sentinel_opt(
                d.subrange(p + 64 + 32 * i, p + 96 + 32 * i),
            )
        &&& subimages_chained(self.subimages@)
        &&& subimages_parsed(self.subimages@, d, p + 224)
        &&& self.checksum == if le32(d, end) == 0xFFFF_FFFF {
            None
        } else {
            Some(le32(d, end))
        }
    }

    pub fn get_subimages(&self) -> (r: &[SubImage])
        ensures
            r@ == self.subimages@,
    {
        self.subimages.as_slice()
    }

    pub fn get_subimages_mut(&mut self) -> (r: &mut [SubImage])
        ensures
            r@ == old(self).subimages@,
            final(self).subimages@ == final(r)@,
            final(self).keyblock == old(self).keyblock,
            final(self).checksum == old(self).checksum,
    {
        self.subimages.as_mut_slice()
    }

    pub fn get_subimage(&self, index: usize) -> (r: Option<&SubImage>)
        ensures
            index < self.subimages@.len() ==> r == Some(&self.subimages@[index as int]),
            index >= self.subimages@.len() ==> r is None,
    {
        if index < self.subimages.len() {
            Some(&self.subimages[index])
        } else {
            None
        }
    }

    /// The sub-image at `index`, to change in place, if there is one.
    pub fn get_subimage_mut(&mut self, index: usize) -> (r: Option<&mut SubImage>)
        ensures
            r is Some <==> index < old(self).subimages@.len(),
            r is Some ==> *r->Some_0 == old(self).subimages@[index as int] && final(self).subimages@
                == old(self).subimages@.update(index as int, *final(r->Some_0)),
            r is None ==> final(self).subimages@ == old(self).subimages@,
            final(self).keyblock == old(self).keyblock,
            final(self).checksum == old(self).checksum,
    {
        if index < self.subimages.len() {
            Some(&mut self.subimages[index])
        } else {
            None
        }
    }

    pub fn add_subimage(&mut self, subimage: SubImage)
        ensures
            final(self).subimages@ == old(self).subimages@.push(subimage),
            final(self).keyblock == old(self).keyblock,
            final(self).checksum == old(self).checksum,
    {
        self.subimages.push(subimage);
    }

    pub fn rem_subimage_at(&mut self, index: usize)
        requires
            index < old(self).subimages@.len(),
        ensures
            final(self).subimages@ == old(self).subimages@.remove(index as int),
            final(self).keyblock == old(self).keyblock,
            final(self).checksum == old(self).checksum,
    {
        self.subimages.remove(index);
    }

    /// The OTA signature, which is kept in the encryption key slot of the key block.
    pub fn get_ota_signature(&self) -> (r: &[u8; 32])
        ensures
            *r == self.keyblock.enc_pubkey,
    {
        &self.keyblock.enc_pubkey
    }

    /// The public key in slot `index` (of five).
    pub fn get_public_key(&self, index: u8) -> (r: Option<&[u8; 32]>)
        requires
            index < 5,
        ensures
            r == match self.public_keys@[index as int] {
                Some(k) => Some(&k),
                None => None,
            },
    {
        match &self.public_keys[index as usize] {
            Some(k) => Some(k),
            None => None,
        }
    }

    /// The OTA signature: the digest of the first sub-image's header under that
    /// sub-image's hash algorithm, keyed when a key is given.
    pub fn build_ota_signature(&self, key: Option<&[u8]>) -> (r: Result<Vec<u8>, Error>)
        requires
            key_ok(key),
        ensures
            self.subimages@.len() == 0 ==> r == Err::<Vec<u8>, Error>(
                Error::NotImplemented(Unsupported::MissingSubImage),
            ),
            self.subimages@.len() > 0 && self.subimages@[0].fst is Encrypted ==> r == Err::<
                Vec<u8>,
                Error,
            >(Error::NotImplemented(Unsupported::EncryptedSubImage)),
            self.subimages@.len() > 0 && self.subimages@[0].fst is Plain
                && self.subimages@[0].spec_hash_algo() is None ==> r == Err::<Vec<u8>, Error>(
                Error::NotImplemented(Unsupported::MissingHashAlgo),
            ),
            self.subimages@.len() > 0 && self.subimages@[0].spec_hash_algo() == Some(HashAlgo::Other)
                ==> r == Err::<Vec<u8>, Error>(Error::UnsupportedHashAlgo(0xFF)),
            self.subimages@.len() > 0 && self.subimages@[0].spec_hash_algo() is Some
                && self.subimages@[0].spec_hash_algo() != Some(HashAlgo::Other) ==> r is Ok || r
                == Err::<Vec<u8>, Error>(Error::Crypto),
            r matches Ok(sig) ==> (self.subimages@.len() > 0 && (self.subimages@[0].spec_hash_algo() matches Some(
                a,
            ) && sig@ == digest_of(a, key_view(key), self.subimages@[0].header.encoded()))),
    {
        if self.subimages.len() == 0 {
            return Err(Error::NotImplemented(Unsupported::MissingSubImage));
        }
        let sub = &self.subimages[0];
        match &sub.fst {
            EncryptedOr::Encrypted(_) => Err(Error::NotImplemented(Unsupported::EncryptedSubImage)),
            EncryptedOr::Plain(f) => match f.hash_algo {
                None => Err(Error::NotImplemented(Unsupported::MissingHashAlgo)),
                Some(algo) => {
                    let mut buffer: Vec<u8> = Vec::new();
                    sub.header.write_to(&mut buffer);
                    assert(buffer@ =~= sub.header.encoded());
                    algo.compute_hash(buffer.as_slice(), key)
                },
            },
        }
    }

    /// The digest under `algo` (keyed when `key` is given) of the 96 header bytes at
    /// the cursor.
    pub fn ota_signature_from_stream(r: &mut ByteReader, algo: HashAlgo, key: Option<&[u8]>) -> (res:
        Result<Vec<u8>, Error>)
        requires
            key_ok(key),
        ensures
            final(r).data@ == old(r).data@,
            res matches Ok(sig) ==> old(r).has(96) && sig@ == digest_of(
                algo,
                key_view(key),
                old(r).window(96),
            ),
            !old(r).has(96) ==> res == Err::<Vec<u8>, Error>(Error::UnexpectedEof),
            old(r).has(96) && algo == HashAlgo::Other ==> res == Err::<Vec<u8>, Error>(
                Error::UnsupportedHashAlgo(0xFF),
            ),
            old(r).has(96) && algo != HashAlgo::Other ==> res is Ok || res == Err::<Vec<u8>, Error>(
                Error::Crypto,
            ),
    {
        let buffer = r.read_vec(96)?;
        algo.compute_hash(buffer.as_slice(), key)
    }

    /// Stores the OTA signature in the encryption key slot of the key block.
    pub fn set_ota_signature(&mut self, signature: &[u8])
        requires
            signature@.len() == 32,
        ensures
            final(self).keyblock.enc_pubkey@ == signature@,
            final(self).keyblock.hash_pubkey == old(self).keyblock.hash_pubkey,
            final(self).subimages@ == old(self).subimages@,
            final(self).checksum == old(self).checksum,
    {
        self.keyblock.enc_pubkey = crate::bytes::get_array::<32>(signature, 0);
        assert(signature@.subrange(0, 32) =~= signature@);
    }

    /// The sum of all bytes of `buf`, wrapped to 32 bits.
    pub fn checksum_from_buffer(buf: &[u8]) -> (r: u32)
        ensures
            r as int == byte_sum(buf@) % 0x1_0000_0000,
    {
        let mut acc: u32 = 0;
        let mut i: usize = 0;
        while i < buf.len()
            invariant
                i <= buf@.len(),
                acc as int == byte_sum(buf@.subrange(0, i as int)) % 0x1_0000_0000,
            decreases buf@.len() - i,
        {
            let ghost prev = buf@.subrange(0, i as int);
            let next = ((acc as u64 + buf[i] as u64) % 0x1_0000_0000) as u32;
            proof {
                let s = buf@.subrange(0, i + 1);
                assert(s.drop_last() =~= prev);
                assert(s.last() == buf@[i as int]);
                vstd::arithmetic::div_mod::lemma_add_mod_noop(
                    byte_sum(prev),
                    buf@[i as int] as int,
                    0x1_0000_0000,
                );
                vstd::arithmetic::div_mod::lemma_small_mod(buf@[i as int] as nat, 0x1_0000_0000);
                vstd::arithmetic::div_mod::lemma_mod_twice(byte_sum(prev), 0x1_0000_0000);
            }
            acc = next;
            i = i + 1;
        }
        assert(buf@.subrange(0, buf@.len() as int) =~= buf@);
        acc
    }

    /// The checksum of what remains after the cursor, leaving out its last four
    /// bytes (where the checksum itself is stored).
    pub fn checksum_from_stream(r: &mut ByteReader) -> (res: Result<u32, Error>)
        requires
            old(r).pos <= old(r).data@.len(),
        ensures
            final(r).data@ == old(r).data@,
            res is Ok <==> old(r).has(4),
            res matches Ok(c) ==> c as int == byte_sum(
                old(r).data@.subrange(old(r).pos as int, old(r).data@.len() - 4),
            ) % 0x1_0000_0000,
            res is Err ==> res == Err::<u32, Error>(Error::UnexpectedEof),
    {
        let rest = r.len() - r.position();
        let buffer = r.read_vec(rest)?;
        if buffer.len() < 4 {
            return Err(Error::UnexpectedEof);
        }
        let body = crate::bytes::slice_prefix(buffer.as_slice(), buffer.len() - 4);
        assert(body@ =~= old(r).data@.subrange(old(r).pos as int, old(r).data@.len() - 4));
        Ok(Self::checksum_from_buffer(body.as_slice()))
    }

    /// Stores as checksum the sum, wrapped to 32 bits, of every byte of the image's
    /// encoding as a file of its own, but the four bytes of the checksum field.
    pub fn update_checksum(&mut self)
        ensures
            final(self).checksum == Some(
                (byte_sum(
                    old(self).encoded_at(0).subrange(0, old(self).encoded_at(0).len() - 4),
                ) % 0x1_0000_0000) as u32,
            ),
            final(self).keyblock == old(self).keyblock,
            final(self).public_keys == old(self).public_keys,
            final(self).subimages@ == old(self).subimages@,
    {
        let mut out: Vec<u8> = Vec::new();
        self.write_to(&mut out);
        assert(out@ =~= self.encoded_at(0));
        let n = out.len() - 4;
        let body = crate::bytes::slice_prefix(out.as_slice(), n);
        self.checksum = Some(Self::checksum_from_buffer(body.as_slice()));
    }

    /// Decodes an OTA image at the cursor.
    #[verifier::rlimit(60)]
    pub fn read_from(r: &mut ByteReader) -> (res: Result<OTAImage, Error>)
        requires
            old(r).pos <= old(r).data@.len(),
        ensures
            final(r).data@ == old(r).data@,
            res is Ok <==> Self::decodable_at(old(r).data@, old(r).pos as int),
            res matches Ok(x) ==> x.parsed_at(old(r).data@, old(r).pos as int) && final(r).pos
                == subimages_end(x.subimages@, old(r).data@, old(r).pos + 224) + 4,
            !old(r).has(224) ==> res is Err,
    {
        let ghost d = r.data@;
        let ghost p = r.pos as int;
        let keyblock = KeyBlock::read_from(r)?;
        let k0 = r.read_optional::<32>()?;
        let k1 = r.read_optional::<32>()?;
        let k2 = r.read_optional::<32>()?;
        let k3 = r.read_optional::<32>()?;
        let k4 = r.read_optional::<32>()?;
        let public_keys = [k0, k1, k2, k3, k4];
        let ghost start = r.pos as int;
        let mut subimages: Vec<SubImage> = Vec::new();
        loop
            invariant_except_break
                forall|i: int| 0 <= i < subimages@.len() ==> #[trigger] subimages@[i].header.next_offset != 0xFFFF_FFFF,
                subimage_chain_decodable(d, start) == subimage_chain_decodable(d, r.pos as int),
                subimage_chain_decodable(d, start) ==> subimage_chain_end(d, start)
                    == subimage_chain_end(d, r.pos as int),
            invariant
                r.data@ == d,
                d == old(r).data@,
                p == old(r).pos,
                start == p + 224,
                start <= r.pos <= d.len(),
                subimages_parsed(subimages@, d, start),
                r.pos == subimages_end(subimages@, d, start),
            ensures
                subimages_chained(subimages@),
                subimage_chain_decodable(d, start),
                subimage_chain_end(d, start) == r.pos,
            decreases d.len() - r.pos,
        {
            let ghost before = subimages@;
            let ghost pos0 = r.pos as int;
            let s = match SubImage::read_from(r) {
                Ok(s) => s,
                Err(e) => {
                    assert(!subimage_chain_decodable(d, pos0));
                    assert(!Self::decodable_at(d, p));
                    return Err(e);
                },
            };
            let more = s.header.has_next();
            assert((SubImage::align_from(d, pos0) == 0x4000) == more);
            subimages.push(s);
            assert(subimages@.drop_last() =~= before);
            if !more {
                assert(forall|i: int| 0 <= i < subimages@.len() - 1 ==> subimages@[i] == before[i]);
                break;
            }
        }
        let stored = r.read_u32()?;
        let checksum = if stored == 0xFFFF_FFFF {
            None
        } else {
            Some(stored)
        };
        let x = OTAImage { keyblock, public_keys, subimages, checksum };
        assert(forall|i: int|
            0 <= i < 5 ==> opt_view(#[trigger] x.public_keys@[i]) == sentinel_opt(
                d.subrange(p + 64 + 32 * i, p + 96 + 32 * i),
            ));
        Ok(x)
    }

    /// Encodes the image; an absent checksum is written as `0xFFFF_FFFF`.
    pub fn write_to(&self, out: &mut Vec<u8>)
        ensures
            final(out)@ == old(out)@ + self.encoded_at(old(out)@.len() as int),
    {
        let ghost pos = old(out)@.len() as int;
        self.keyblock.write_to(out);
        write_public_keys(&self.public_keys, out);
        write_subimages(&self.subimages, out);
        let stored = match self.checksum {
            Some(c) => c,
            None => 0xFFFF_FFFF,
        };
        write_u32(out, stored);
        assert(final(out)@ =~= old(out)@ + self.encoded_at(pos));
    }
}


/// Every section of `secs` reads back as written.
pub open spec fn sections_valid(secs: Seq<Section>) -> bool {
    forall|i: int| 0 <= i < secs.len() ==> #[trigger] secs[i].valid()
}

/// Decoding valid sections one after another from their encoding, wherever it
/// stands in a stream, gives them back and ends where the encoding ends.
#[verifier::rlimit(60)]
pub proof fn lemma_sections_round_trip(secs: Seq<Section>, pre: Seq<u8>, post: Seq<u8>)
    requires
        sections_valid(secs),
    ensures
        sections_parsed(secs, pre + sections_bytes_at(secs, pre.len() as int) + post, pre.len() as int),
        sections_end(secs, pre + sections_bytes_at(secs, pre.len() as int) + post, pre.len() as int)
            == pre.len() + sections_bytes_at(secs, pre.len() as int).len(),
    decreases secs.len(),
{
    let p = pre.len() as int;
    let d = pre + sections_bytes_at(secs, p) + post;
    if secs.len() == 0 {
        assert(d =~= pre + post);
    } else {
        let init = secs.drop_last();
        let last = secs.last();
        let prev = sections_bytes_at(init, p);
        let le = last.encoded_at(p + prev.len());
        assert(sections_valid(init)) by {
            assert forall|i: int| 0 <= i < init.len() implies #[trigger] init[i].valid() by {
                assert(init[i] == secs[i]);
            }
        }
        assert(last.valid()) by {
            assert(last == secs[secs.len() - 1]);
        }
        lemma_sections_round_trip(init, pre, le + post);
        assert(pre + prev + (le + post) =~= d);
        lemma_section_round_trip(&last, pre + prev, post);
        assert(pre + prev + le + post =~= d);
        assert((pre + prev).len() == p + prev.len());
    }
}

/// The encodings of `secs` start with that of their first section.
pub proof fn lemma_sections_bytes_front(secs: Seq<Section>, pos: int)
    requires
        secs.len() > 0,
    ensures
        sections_bytes_at(secs, pos) == secs[0].encoded_at(pos) + sections_bytes_at(
            secs.drop_first(),
            pos + secs[0].encoded_at(pos).len(),
        ),
    decreases secs.len(),
{
    if secs.len() == 1 {
        assert(secs.drop_last() =~= Seq::<Section>::empty());
        assert(secs.drop_first() =~= Seq::<Section>::empty());
        assert(sections_bytes_at(secs.drop_last(), pos) == Seq::<u8>::empty());
        assert(sections_bytes_at(secs.drop_first(), pos + secs[0].encoded_at(pos).len())
            == Seq::<u8>::empty());
        assert(secs.last() == secs[0]);
        assert(sections_bytes_at(secs, pos) =~= secs[0].encoded_at(pos) + Seq::<u8>::empty());
    } else {
        let init = secs.drop_last();
        lemma_sections_bytes_front(init, pos);
        assert(init[0] == secs[0]);
        assert(secs.drop_first().drop_last() =~= init.drop_first());
        assert(secs.drop_first().last() == secs.last());
    }
}

/// The encodings of valid, properly chained sections form a chain that decodes
/// and ends where the encodings end.
#[verifier::rlimit(60)]
pub proof fn lemma_sections_chain(secs: Seq<Section>, pre: Seq<u8>, post: Seq<u8>)
    requires
        sections_valid(secs),
        sections_chained(secs),
    ensures
        chain_decodable(pre + sections_bytes_at(secs, pre.len() as int) + post, pre.len() as int),
        chain_end(pre + sections_bytes_at(secs, pre.len() as int) + post, pre.len() as int)
            == pre.len() + sections_bytes_at(secs, pre.len() as int).len(),
    decreases secs.len(),
{
    let p = pre.len() as int;
    let d = pre + sections_bytes_at(secs, p) + post;
    let s0 = secs[0];
    let e0 = s0.encoded_at(p);
    let rest = secs.drop_first();
    let rb = sections_bytes_at(rest, p + e0.len());
    lemma_sections_bytes_front(secs, p);
    assert(s0.valid());
    lemma_section_round_trip(&s0, pre, rb + post);
    assert(pre + e0 + (rb + post) =~= d);
    assert(section_has_next(d, p) == (s0.header.next_offset != 0xFFFF_FFFF));
    if secs.len() == 1 {
        assert(s0 == secs.last());
        assert(rb.len() == 0);
    } else {
        assert(s0.header.next_offset != 0xFFFF_FFFF);
        assert(sections_valid(rest)) by {
            assert forall|i: int| 0 <= i < rest.len() implies #[trigger] rest[i].valid() by {
                assert(rest[i] == secs[i + 1]);
            }
        }
        assert(sections_chained(rest)) by {
            assert forall|i: int| 0 <= i < rest.len() - 1 implies #[trigger] rest[i].header.next_offset
                != 0xFFFF_FFFF by {
                assert(rest[i] == secs[i + 1]);
            }
            assert(rest.last() == secs.last());
        }
        lemma_sections_chain(rest, pre + e0, post);
        assert(pre + e0 + rb + post =~= d);
    }
}

/// Decoding a valid, unencrypted sub-image from its encoding, wherever it stands
/// in a stream, gives it back and ends where the encoding ends.
#[verifier::rlimit(60)]
pub proof fn lemma_subimage_round_trip(x: &SubImage, pre: Seq<u8>, post: Seq<u8>)
    requires
        !x.header.is_encrypt,
        x.fst matches EncryptedOr::Plain(f) && f.valid(),
        x.sections matches EncryptedOr::Plain(secs) && sections_chained(secs@) && sections_valid(
            secs@,
        ),
    ensures
        x.parsed_at(
            pre + x.encoded_at(pre.len() as int) + post,
            pre.len() as int,
            x.hash_end(pre + x.encoded_at(pre.len() as int) + post, pre.len() as int),
        ),
        x.end_at(pre + x.encoded_at(pre.len() as int) + post, pre.len() as int) == pre.len()
            + x.encoded_at(pre.len() as int).len(),
        SubImage::decodable_at(pre + x.encoded_at(pre.len() as int) + post, pre.len() as int),
        SubImage::end_from(pre + x.encoded_at(pre.len() as int) + post, pre.len() as int)
            == pre.len() + x.encoded_at(pre.len() as int).len(),
{
    reveal(SubImage::encoded_at);
    let p = pre.len() as int;
    let e = x.encoded_at(p);
    let d = pre + e + post;
    let f = x.fst->Plain_0;
    let secs = x.sections->Plain_0@;
    let hd = x.header.encoded();
    let fe = f.encoded();
    x.header.lemma_round_trip();
    f.lemma_round_trip();
    let body = sections_bytes_at(secs, p + 192);
    let len = 96 + 96 + body.len() + 32;
    let pad = fill(SUBIMAGE_FILL, align_pad(p + len, x.spec_align()) as nat);
    assert(e =~= hd + fe + body + x.hash@ + pad);
    assert(d.subrange(p, p + 96) =~= hd);
    assert(d.subrange(p + 96, p + 192) =~= fe);
    assert(hd[9] == 0);
    let head = pre + hd + fe;
    assert(head.len() == p + 192);
    lemma_sections_round_trip(secs, head, x.hash@ + pad + post);
    lemma_sections_chain(secs, head, x.hash@ + pad + post);
    assert(head + body + (x.hash@ + pad + post) =~= d);
    assert(le32(d.subrange(p, p + 96), 4) == x.header.next_offset);
    assert(SubImage::align_from(d, p) == x.spec_align());
    let q = p + 192 + body.len() + 32;
    assert(x.hash_end(d, p) == q);
    assert(d.subrange(q - 32, q) =~= x.hash@);
}


/// A sub-image that reads back as written: unencrypted, with a valid table and a
/// properly chained list of valid sections.
pub open spec fn subimage_valid(x: SubImage) -> bool {
    &&& !x.header.is_encrypt
    &&& x.fst matches EncryptedOr::Plain(f) && f.valid()
    &&& x.sections matches EncryptedOr::Plain(secs) && sections_chained(secs@) && sections_valid(
        secs@,
    )
}

/// Decoding valid sub-images one after another from their encoding, wherever it
/// stands in a stream, gives them back and ends where the encoding ends.
#[verifier::rlimit(60)]
pub proof fn lemma_subimages_round_trip(subs: Seq<SubImage>, pre: Seq<u8>, post: Seq<u8>)
    requires
        forall|i: int| 0 <= i < subs.len() ==> #[trigger] subimage_valid(subs[i]),
    ensures
        subimages_parsed(subs, pre + subimages_bytes_at(subs, pre.len() as int) + post, pre.len() as int),
        subimages_end(subs, pre + subimages_bytes_at(subs, pre.len() as int) + post, pre.len() as int)
            == pre.len() + subimages_bytes_at(subs, pre.len() as int).len(),
    decreases subs.len(),
{
    let p = pre.len() as int;
    let d = pre + subimages_bytes_at(subs, p) + post;
    if subs.len() == 0 {
        assert(d =~= pre + post);
    } else {
        let init = subs.drop_last();
        let last = subs.last();
        let prev = subimages_bytes_at(init, p);
        let le = last.encoded_at(p + prev.len());
        assert forall|i: int| 0 <= i < init.len() implies #[trigger] subimage_valid(init[i]) by {
            assert(init[i] == subs[i]);
        }
        assert(subimage_valid(subs[subs.len() - 1]));
        lemma_subimages_round_trip(init, pre, le + post);
        assert(pre + prev + (le + post) =~= d);
        lemma_subimage_round_trip(&last, pre + prev, post);
        assert(pre + prev + le + post =~= d);
        assert((pre + prev).len() == p + prev.len());
    }
}

/// The encodings of `subs` start with that of their first sub-image.
pub proof fn lemma_subimages_bytes_front(subs: Seq<SubImage>, pos: int)
    requires
        subs.len() > 0,
    ensures
        subimages_bytes_at(subs, pos) == subs[0].encoded_at(pos) + subimages_bytes_at(
            subs.drop_first(),
            pos + subs[0].encoded_at(pos).len(),
        ),
    decreases subs.len(),
{
    if subs.len() == 1 {
        assert(subs.drop_last() =~= Seq::<SubImage>::empty());
        assert(subs.drop_first() =~= Seq::<SubImage>::empty());
        assert(subimages_bytes_at(subs.drop_last(), pos) == Seq::<u8>::empty());
        assert(subimages_bytes_at(subs.drop_first(), pos + subs[0].encoded_at(pos).len())
            == Seq::<u8>::empty());
        assert(subs.last() == subs[0]);
        assert(subimages_bytes_at(subs, pos) =~= subs[0].encoded_at(pos) + Seq::<u8>::empty());
    } else {
        let init = subs.drop_last();
        lemma_subimages_bytes_front(init, pos);
        assert(init[0] == subs[0]);
        assert(subs.drop_first().drop_last() =~= init.drop_first());
        assert(subs.drop_first().last() == subs.last());
    }
}

/// The encodings of valid, properly chained sub-images form a chain that decodes
/// and ends where the encodings end.
#[verifier::rlimit(60)]
pub proof fn lemma_subimages_chain(subs: Seq<SubImage>, pre: Seq<u8>, post: Seq<u8>)
    requires
        forall|i: int| 0 <= i < subs.len() ==> #[trigger] subimage_valid(subs[i]),
        subimages_chained(subs),
    ensures
        subimage_chain_decodable(
            pre + subimages_bytes_at(subs, pre.len() as int) + post,
            pre.len() as int,
        ),
        subimage_chain_end(pre + subimages_bytes_at(subs, pre.len() as int) + post, pre.len() as int)
            == pre.len() + subimages_bytes_at(subs, pre.len() as int).len(),
    decreases subs.len(),
{
    let p = pre.len() as int;
    let d = pre + subimages_bytes_at(subs, p) + post;
    let s0 = subs[0];
    let e0 = s0.encoded_at(p);
    let rest = subs.drop_first();
    let rb = subimages_bytes_at(rest, p + e0.len());
    lemma_subimages_bytes_front(subs, p);
    assert(subimage_valid(subs[0]));
    lemma_subimage_round_trip(&s0, pre, rb + post);
    assert(pre + e0 + (rb + post) =~= d);
    assert((SubImage::align_from(d, p) == 0x4000) == (s0.header.next_offset != 0xFFFF_FFFF));
    if subs.len() == 1 {
        assert(s0 == subs.last());
        assert(rb.len() == 0);
    } else {
        assert(s0.header.next_offset != 0xFFFF_FFFF);
        assert forall|i: int| 0 <= i < rest.len() implies #[trigger] subimage_valid(rest[i]) by {
            assert(rest[i] == subs[i + 1]);
        }
        assert(subimages_chained(rest)) by {
            assert forall|i: int| 0 <= i < rest.len() - 1 implies #[trigger] rest[i].header.next_offset
                != 0xFFFF_FFFF by {
                assert(rest[i] == subs[i + 1]);
            }
            assert(rest.last() == subs.last());
        }
        lemma_subimages_chain(rest, pre + e0, post);
        assert(pre + e0 + rb + post =~= d);
    }
}

/// Decoding the encoding of a valid OTA image, wherever it stands in a stream,
/// gives it back and takes all of it. A checksum of `0xFFFF_FFFF` would read back as
/// absent, so it is left out.
#[verifier::rlimit(60)]
pub proof fn lemma_ota_round_trip(x: &OTAImage, pre: Seq<u8>, post: Seq<u8>)
    requires
        forall|i: int| 0 <= i < 5 ==> canonical_opt(#[trigger] x.public_keys@[i]),
        subimages_chained(x.subimages@),
        forall|i: int| 0 <= i < x.subimages@.len() ==> #[trigger] subimage_valid(x.subimages@[i]),
        x.checksum != Some(0xFFFF_FFFFu32),
    ensures
        x.parsed_at(pre + x.encoded_at(pre.len() as int) + post, pre.len() as int),
        subimages_end(
            x.subimages@,
            pre + x.encoded_at(pre.len() as int) + post,
            pre.len() as int + 224,
        ) + 4 == pre.len() + x.encoded_at(pre.len() as int).len(),
        OTAImage::decodable_at(pre + x.encoded_at(pre.len() as int) + post, pre.len() as int),
{
    let p = pre.len() as int;
    let e = x.encoded_at(p);
    let d = pre + e + post;
    let kb = x.keyblock.encoded();
    let keys = public_keys_bytes(x.public_keys);
    let subs = x.subimages@;
    let body = subimages_bytes_at(subs, p + 224);
    let c: u32 = match x.checksum {
        Some(c) => c,
        None => 0xFFFF_FFFF,
    };
    x.keyblock.lemma_round_trip();
    assert(d.subrange(p, p + 64) =~= kb);
    assert forall|i: int| 0 <= i < 5 implies opt_view(#[trigger] x.public_keys@[i]) == sentinel_opt(
        d.subrange(p + 64 + 32 * i, p + 96 + 32 * i),
    ) by {
        lemma_sentinel_round_trip(x.public_keys@[i]);
        assert(d.subrange(p + 64 + 32 * i, p + 96 + 32 * i) =~= sentinel_bytes(x.public_keys@[i]));
    }
    let head = pre + kb + keys;
    assert(head.len() == p + 224);
    lemma_subimages_round_trip(subs, head, u32_bytes(c) + post);
    lemma_subimages_chain(subs, head, u32_bytes(c) + post);
    assert(head + body + (u32_bytes(c) + post) =~= d);
    let end = p + 224 + body.len();
    assert(d.subrange(end, end + 4) =~= u32_bytes(c));
    lemma_le32_window(d, end, c);
}

} // verus!

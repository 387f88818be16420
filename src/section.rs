//! A section: header, entry header and payload, padded to a 0x20 boundary.
use vstd::prelude::*;

use crate::bytes::{align_pad, fill, write_aligned, write_slice, ByteReader};
use crate::error::{Error, StateIssue};
use crate::header::{EntryHeader, SectionHeader};

verus! {

/// The alignment of a section's end.
pub const SECTION_ALIGN: usize = 0x20;

/// A section of a sub-image. Its payload is `header.length - 0x20` bytes long
/// (the length counts the entry header).
///
/// Every section pads itself to a 0x20 boundary of the stream, on both sides of
/// the codec, so a sub-image's hash follows its last section directly; no separate
/// alignment step stands between them.
#[derive(Debug, Clone)]
pub struct Section {
    pub header: SectionHeader,
    pub entry_header: EntryHeader,
    pub data: Vec<u8>,
}

/// `n` rounded up to a multiple of 0x20 (an aligned `n` stays as it is).
pub open spec fn round_up_32(n: int) -> int {
    n + align_pad(n, 0x20)
}

impl Section {
    /// The bytes of the section when its encoding starts at offset `pos`: the payload
    /// is followed by zeros up to the next 0x20 boundary of the output.
    pub open spec fn encoded_at(&self, pos: int) -> Seq<u8> {
        self.header.encoded() + self.entry_header.encoded() + self.data@ + fill(
            0,
            align_pad(pos + 128 + self.data@.len(), 0x20) as nat,
        )
    }

    /// Where the section that starts at `p` ends in a stream `d` whose header says so.
    pub open spec fn end_at(d: Seq<u8>, p: int) -> int {
        let after = p + 128 + crate::bytes::le32(d.subrange(p, p + 96), 0) - 0x20;
        after + align_pad(after, 0x20)
    }

    /// A section decodes at `p` in `d`.
    pub open spec fn decodable_at(d: Seq<u8>, p: int) -> bool {
        let hw = d.subrange(p, p + 96);
        &&& p + 128 <= d.len()
        &&& SectionHeader::decodable(hw)
        &&& crate::bytes::le32(hw, 0) >= 0x20
        &&& Self::end_at(d, p) <= d.len()
    }

    /// `self` is what decoding at `p` in `d` gives.
    pub open spec fn parsed_at(&self, d: Seq<u8>, p: int) -> bool {
        &&& self.header.parsed_from(d.subrange(p, p + 96))
        &&& self.entry_header.parsed_from(d.subrange(p + 96, p + 128))
        &&& self.data@ == d.subrange(p + 128, p + 128 + self.header.length - 0x20)
    }

    /// A section that reads back as written: valid headers and a length field that
    /// counts the entry header and the payload.
    pub open spec fn valid(&self) -> bool {
        &&& self.header.valid()
        &&& self.entry_header.valid()
        &&& self.header.length == 0x20 + self.data@.len()
    }

    pub open spec fn spec_aligned_length(&self) -> int {
        round_up_32(0x20 + self.data@.len() as int)
    }

    /// A section with a default header and `capacity` zero bytes of payload.
    pub fn new_with_size(capacity: usize) -> (r: Section)
        ensures
            r.data@ == fill(0, capacity as nat),
            r.entry_header == (EntryHeader { length: 0, load_address: 0, entry_address: None }),
            r.header.length == 0,
            r.header.next_offset == 0xFFFF_FFFF,
    {
        let mut data: Vec<u8> = Vec::new();
        crate::bytes::write_fill(&mut data, 0, capacity as u64);
        assert(data@ =~= fill(0, capacity as nat));
        Section { header: SectionHeader::default(), entry_header: EntryHeader::default(), data }
    }

    pub fn get_data(&self) -> (r: &[u8])
        ensures
            r@ == self.data@,
    {
        self.data.as_slice()
    }

    pub fn set_data(&mut self, data: Vec<u8>)
        ensures
            final(self).data@ == data@,
            final(self).header == old(self).header,
            final(self).entry_header == old(self).entry_header,
    {
        self.data = data;
    }

    /// The entry header and payload, rounded up to a multiple of 0x20.
    pub fn build_aligned_length(&self) -> (r: u32)
        requires
            self.data@.len() + 0x40 <= u32::MAX,
        ensures
            r == self.spec_aligned_length(),
    {
        let length = 0x20 + self.data.len();
        let alignment = length % 0x20;
        if alignment == 0 {
            length as u32
        } else {
            (length + (0x20 - alignment)) as u32
        }
    }

    /// The whole section with its header, as its encoding at an aligned offset takes.
    pub fn build_aligned_size(&self) -> (r: u32)
        requires
            self.data@.len() + 0xA0 <= u32::MAX,
        ensures
            r == 0x60 + self.spec_aligned_length(),
    {
        0x60 + self.build_aligned_length()
    }

    /// Decodes a section at the cursor and skips the padding after its payload.
    pub fn read_from(r: &mut ByteReader) -> (res: Result<Section, Error>)
        ensures
            final(r).data@ == old(r).data@,
            res is Ok <==> Self::decodable_at(old(r).data@, old(r).pos as int),
            res matches Ok(s) ==> s.parsed_at(old(r).data@, old(r).pos as int) && final(r).pos
                == Self::end_at(old(r).data@, old(r).pos as int),
            res is Ok ==> final(r).pos >= old(r).pos + 128,
    {
        let header = SectionHeader::read_from(r)?;
        let entry_header = EntryHeader::read_from(r)?;
        if header.length < 0x20 {
            return Err(Error::InvalidState(StateIssue::LengthTooSmall));
        }
        let data = r.read_vec((header.length - 0x20) as usize)?;
        r.skip_aligned(SECTION_ALIGN)?;
        Ok(Section { header, entry_header, data })
    }

    /// Encodes the section and pads the output with zeros to a 0x20 boundary.
    pub fn write_to(&self, out: &mut Vec<u8>)
        ensures
            final(out)@ == old(out)@ + self.encoded_at(old(out)@.len() as int),
    {
        self.header.write_to(out);
        self.entry_header.write_to(out);
        write_slice(out, self.data.as_slice());
        write_aligned(out, SECTION_ALIGN, 0);
        assert(final(out)@ =~= old(out)@ + self.encoded_at(old(out)@.len() as int));
    }
}


/// Decoding a valid section from its encoding, wherever it stands in a stream,
/// gives it back and ends where the encoding ends.
#[verifier::rlimit(60)]
pub proof fn lemma_section_round_trip(s: &Section, pre: Seq<u8>, post: Seq<u8>)
    requires
        s.valid(),
    ensures
        Section::decodable_at(pre + s.encoded_at(pre.len() as int) + post, pre.len() as int),
        s.parsed_at(pre + s.encoded_at(pre.len() as int) + post, pre.len() as int),
        Section::end_at(pre + s.encoded_at(pre.len() as int) + post, pre.len() as int) == pre.len()
            + s.encoded_at(pre.len() as int).len(),
{
    let p = pre.len() as int;
    let e = s.encoded_at(p);
    let d = pre + e + post;
    s.header.lemma_round_trip();
    s.entry_header.lemma_round_trip();
    assert(d.subrange(p, p + 96) =~= s.header.encoded());
    assert(d.subrange(p + 96, p + 128) =~= s.entry_header.encoded());
    assert(d.subrange(p + 128, p + 128 + s.data@.len()) =~= s.data@);
}

} // verus!

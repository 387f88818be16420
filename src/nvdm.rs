//! The non-volatile data manager region: physical erase blocks (PEBs) holding
//! data items, each with a group name, an item name and a value.
use vstd::prelude::*;

use std::string::FromUtf8Error;

use crate::bytes::{get_u16, get_u32, le16, le32, slice_prefix, u16_bytes, u32_bytes, write_u16, write_u32, ByteReader};
use crate::error::{Error, StateIssue};

verus! {

/// The error of `String::from_utf8`, carried opaque until it is mapped to
/// `Error::InvalidText`.
#[verifier::external_type_specification]
#[verifier::external_body]
pub struct ExFromUtf8Error(FromUtf8Error);

/// The text that the UTF-8 bytes `b` spell, if they are valid UTF-8.
pub uninterp spec fn utf8_of(b: Seq<u8>) -> Option<Seq<char>>;

/// Relies on `String::from_utf8`: the text of `b` when it is valid UTF-8, an error
/// otherwise.
#[verifier::external_body]
fn string_from_utf8(b: Vec<u8>) -> (r: Result<String, FromUtf8Error>)
    ensures
        r is Ok <==> utf8_of(b@) is Some,
        r matches Ok(s) ==> utf8_of(b@) == Some(s@),
{
    String::from_utf8(b)
}

/// The kind of value a data item holds; any other code reads as `Unknown`.
#[derive(Debug, Clone, Copy, PartialEq, Eq, Structural)]
pub enum NvdmDataItemType {
    RawData,
    String,
    Unknown,
}

/// The state of a data item; any other code reads as `Unknown`.
#[derive(Debug, Clone, Copy, PartialEq, Eq, Structural)]
pub enum DataItemStatus {
    Delete,
    Valid,
    Writing,
    Empty,
    Unknown,
}

/// The state of an erase block; any other code reads as `Unknown`.
#[derive(Debug, Clone, Copy, PartialEq, Eq, Structural)]
pub enum PebStatus {
    Erasing,
    Reclaiming,
    Actived,
    Transfered,
    Transfering,
    Activing,
    Empty,
    Virgin,
    Unknown,
}

impl NvdmDataItemType {
    pub open spec fn value(self) -> u8 {
        match self {
            NvdmDataItemType::RawData => 1,
            NvdmDataItemType::String => 2,
            NvdmDataItemType::Unknown => 0,
        }
    }

    pub open spec fn spec_from_u8(v: u8) -> NvdmDataItemType {
        if v == 1 {
            NvdmDataItemType::RawData
        } else if v == 2 {
            NvdmDataItemType::String
        } else {
            NvdmDataItemType::Unknown
        }
    }

    pub fn from_u8(v: u8) -> (r: NvdmDataItemType)
        ensures
            r == Self::spec_from_u8(v),
    {
        match v {
            1 => NvdmDataItemType::RawData,
            2 => NvdmDataItemType::String,
            _ => NvdmDataItemType::Unknown,
        }
    }

    pub fn as_u8(&self) -> (r: u8)
        ensures
            r == self.value(),
    {
        match self {
            NvdmDataItemType::RawData => 1,
            NvdmDataItemType::String => 2,
            NvdmDataItemType::Unknown => 0,
        }
    }
}

impl DataItemStatus {
    pub open spec fn value(self) -> u8 {
        match self {
            DataItemStatus::Delete => 248,
            DataItemStatus::Valid => 252,
            DataItemStatus::Writing => 254,
            DataItemStatus::Empty => 255,
            DataItemStatus::Unknown => 0,
        }
    }

    pub open spec fn spec_from_u8(v: u8) -> DataItemStatus {
        if v == 248 {
            DataItemStatus::Delete
        } else if v == 252 {
            DataItemStatus::Valid
        } else if v == 254 {
            DataItemStatus::Writing
        } else if v == 255 {
            DataItemStatus::Empty
        } else {
            DataItemStatus::Unknown
        }
    }

    pub fn from_u8(v: u8) -> (r: DataItemStatus)
        ensures
            r == Self::spec_from_u8(v),
    {
        match v {
            248 => DataItemStatus::Delete,
            252 => DataItemStatus::Valid,
            254 => DataItemStatus::Writing,
            255 => DataItemStatus::Empty,
            _ => DataItemStatus::Unknown,
        }
    }

    pub fn as_u8(&self) -> (r: u8)
        ensures
            r == self.value(),
    {
        match self {
            DataItemStatus::Delete => 248,
            DataItemStatus::Valid => 252,
            DataItemStatus::Writing => 254,
            DataItemStatus::Empty => 255,
            DataItemStatus::Unknown => 0,
        }
    }
}

impl PebStatus {
    pub open spec fn value(self) -> u8 {
        match self {
            PebStatus::Erasing => 128,
            PebStatus::Reclaiming => 192,
            PebStatus::Actived => 224,
            PebStatus::Transfered => 240,
            PebStatus::Transfering => 248,
            PebStatus::Activing => 252,
            PebStatus::Empty => 254,
            PebStatus::Virgin => 255,
            PebStatus::Unknown => 0,
        }
    }

    pub open spec fn spec_from_u8(v: u8) -> PebStatus {
        if v == 128 {
            PebStatus::Erasing
        } else if v == 192 {
            PebStatus::Reclaiming
        } else if v == 224 {
            PebStatus::Actived
        } else if v == 240 {
            PebStatus::Transfered
        } else if v == 248 {
            PebStatus::Transfering
        } else if v == 252 {
            PebStatus::Activing
        } else if v == 254 {
            PebStatus::Empty
        } else if v == 255 {
            PebStatus::Virgin
        } else {
            PebStatus::Unknown
        }
    }

    pub fn from_u8(v: u8) -> (r: PebStatus)
        ensures
            r == Self::spec_from_u8(v),
    {
        match v {
            128 => PebStatus::Erasing,
            192 => PebStatus::Reclaiming,
            224 => PebStatus::Actived,
            240 => PebStatus::Transfered,
            248 => PebStatus::Transfering,
            252 => PebStatus::Activing,
            254 => PebStatus::Empty,
            255 => PebStatus::Virgin,
            _ => PebStatus::Unknown,
        }
    }

    pub fn as_u8(&self) -> (r: u8)
        ensures
            r == self.value(),
    {
        match self {
            PebStatus::Erasing => 128,
            PebStatus::Reclaiming => 192,
            PebStatus::Actived => 224,
            PebStatus::Transfered => 240,
            PebStatus::Transfering => 248,
            PebStatus::Activing => 252,
            PebStatus::Empty => 254,
            PebStatus::Virgin => 255,
            PebStatus::Unknown => 0,
        }
    }
}

/// The 20-byte header of a data item.
#[derive(Debug, Clone, Copy, PartialEq, Eq, Structural)]
pub struct DataItemHeader {
    pub status: DataItemStatus,
    pub pnum: u8,
    pub reserved: u16,
    pub offset: u16,
    pub group_name_size: u8,
    pub data_item_name_size: u8,
    pub value_size: u16,
    pub index: u8,
    pub item_type: NvdmDataItemType,
    pub sequence_number: u32,
    pub hash_name: u32,
}

impl Default for DataItemHeader {
    fn default() -> (r: Self)
        ensures
            r.status == DataItemStatus::Empty,
            r.pnum == 0xFF,
            r.group_name_size == 0 && r.data_item_name_size == 0 && r.value_size == 0,
            r.item_type == NvdmDataItemType::RawData,
    {
        DataItemHeader {
            status: DataItemStatus::Empty,
            pnum: 0xFF,
            reserved: 0,
            offset: 0,
            group_name_size: 0,
            data_item_name_size: 0,
            value_size: 0,
            index: 0,
            item_type: NvdmDataItemType::RawData,
            sequence_number: 0,
            hash_name: 0,
        }
    }
}

impl DataItemHeader {
    pub open spec fn encoded(self) -> Seq<u8> {
        seq![self.status.value(), self.pnum] + u16_bytes(self.reserved) + u16_bytes(self.offset)
            + seq![self.group_name_size, self.data_item_name_size] + u16_bytes(self.value_size)
            + seq![self.index, self.item_type.value()] + u32_bytes(self.sequence_number)
            + u32_bytes(self.hash_name)
    }

    /// `self` is what decoding the 20 bytes `s` gives.
    pub open spec fn parsed_from(self, s: Seq<u8>) -> bool {
        &&& self.status == DataItemStatus::spec_from_u8(s[0])
        &&& self.pnum == s[1]
        &&& self.reserved == le16(s, 2)
        &&& self.offset == le16(s, 4)
        &&& self.group_name_size == s[6]
        &&& self.data_item_name_size == s[7]
        &&& self.value_size == le16(s, 8)
        &&& self.index == s[10]
        &&& self.item_type == NvdmDataItemType::spec_from_u8(s[11])
        &&& self.sequence_number == le32(s, 12)
        &&& self.hash_name == le32(s, 16)
    }

    pub fn read_from(r: &mut ByteReader) -> (res: Result<DataItemHeader, Error>)
        ensures
            final(r).data@ == old(r).data@,
            res is Ok <==> old(r).has(20),
            res matches Ok(h) ==> h.parsed_from(old(r).window(20)) && final(r).pos == old(r).pos
                + 20,
            res is Err ==> res == Err::<DataItemHeader, Error>(Error::UnexpectedEof),
    {
        let w = r.read_vec(20)?;
        let s = w.as_slice();
        Ok(
            DataItemHeader {
                status: DataItemStatus::from_u8(s[0]),
                pnum: s[1],
                reserved: get_u16(s, 2),
                offset: get_u16(s, 4),
                group_name_size: s[6],
                data_item_name_size: s[7],
                value_size: get_u16(s, 8),
                index: s[10],
                item_type: NvdmDataItemType::from_u8(s[11]),
                sequence_number: get_u32(s, 12),
                hash_name: get_u32(s, 16),
            },
        )
    }

    pub fn write_to(&self, out: &mut Vec<u8>)
        ensures
            final(out)@ == old(out)@ + self.encoded(),
    {
        out.push(self.status.as_u8());
        out.push(self.pnum);
        write_u16(out, self.reserved);
        write_u16(out, self.offset);
        out.push(self.group_name_size);
        out.push(self.data_item_name_size);
        write_u16(out, self.value_size);
        out.push(self.index);
        out.push(self.item_type.as_u8());
        write_u32(out, self.sequence_number);
        write_u32(out, self.hash_name);
        assert(final(out)@ =~= old(out)@ + self.encoded());
    }
}

/// A data item: header, group and item names (stored with a trailing NUL), value
/// and checksum.
#[derive(Debug, Clone)]
pub struct DataItem {
    pub header: DataItemHeader,
    pub checksum: u16,
    pub group_name: String,
    pub item_name: String,
    pub value: Vec<u8>,
}

impl DataItem {
    /// Header, value, both names and the two-byte checksum.
    pub open spec fn spec_item_size(&self) -> int {
        20 + self.header.value_size + self.header.data_item_name_size + self.header.group_name_size
            + 2
    }

    pub fn item_size(&self) -> (r: u32)
        ensures
            r == self.spec_item_size(),
    {
        20 + self.header.value_size as u32 + self.header.data_item_name_size as u32
            + self.header.group_name_size as u32 + 2
    }

    pub fn item_header(&self) -> (r: &DataItemHeader)
        ensures
            *r == self.header,
    {
        &self.header
    }

    pub fn name(&self) -> (r: &str)
        ensures
            r@ == self.item_name@,
    {
        self.item_name.as_str()
    }

    pub fn group(&self) -> (r: &str)
        ensures
            r@ == self.group_name@,
    {
        self.group_name.as_str()
    }

    pub fn data(&self) -> (r: &[u8])
        ensures
            r@ == self.value@,
    {
        self.value.as_slice()
    }

    /// Reads a stored name of `size` bytes and drops its trailing NUL.
    fn read_name(r: &mut ByteReader, size: u8) -> (res: Result<String, Error>)
        ensures
            final(r).data@ == old(r).data@,
            res matches Ok(s) ==> size >= 1 && old(r).has(size as int) && utf8_of(
                old(r).window(size - 1),
            ) == Some(s@) && final(r).pos == old(r).pos + size,
    {
        let raw = r.read_vec(size as usize)?;
        if raw.len() == 0 {
            return Err(Error::InvalidState(StateIssue::LengthTooSmall));
        }
        let text = slice_prefix(raw.as_slice(), raw.len() - 1);
        assert(text@ =~= old(r).window(size - 1));
        match string_from_utf8(text) {
            Ok(s) => Ok(s),
            Err(_) => Err(Error::InvalidText),
        }
    }

    /// Decodes a data item at the cursor. An empty or unknown item is only its
    /// header.
    pub fn read_from(r: &mut ByteReader) -> (res: Result<DataItem, Error>)
        ensures
            final(r).data@ == old(r).data@,
            res matches Ok(x) ==> x.header.parsed_from(old(r).window(20)),
            res matches Ok(x) ==> (x.header.status == DataItemStatus::Empty || x.header.status
                == DataItemStatus::Unknown) ==> final(r).pos == old(r).pos + 20 && x.value@.len()
                == 0,
            res matches Ok(x) ==> !(x.header.status == DataItemStatus::Empty || x.header.status
                == DataItemStatus::Unknown) ==> final(r).pos == old(r).pos + x.spec_item_size()
                && x.value@ == old(r).data@.subrange(
                old(r).pos + 20 + x.header.group_name_size + x.header.data_item_name_size,
                old(r).pos + 20 + x.header.group_name_size + x.header.data_item_name_size
                    + x.header.value_size,
            ) && x.checksum == le16(
                old(r).data@,
                old(r).pos + 20 + x.header.group_name_size + x.header.data_item_name_size
                    + x.header.value_size,
            ),
            !old(r).has(20) ==> res is Err,
    {
        let header = DataItemHeader::read_from(r)?;
        if header.status == DataItemStatus::Empty || header.status == DataItemStatus::Unknown {
            return Ok(
                DataItem {
                    header,
                    checksum: 0,
                    group_name: String::new(),
                    item_name: String::new(),
                    value: Vec::new(),
                },
            );
        }
        let group_name = Self::read_name(r, header.group_name_size)?;
        let item_name = Self::read_name(r, header.data_item_name_size)?;
        let value = r.read_vec(header.value_size as usize)?;
        let checksum = r.read_u16()?;
        Ok(DataItem { header, checksum, group_name, item_name, value })
    }
}

/// The magic at the start of every erase block.
pub const PEB_MAGIC: [u8; 4] = [0x4E, 0x56, 0x44, 0x4D];

/// The 12-byte header of an erase block.
#[derive(Debug, Clone, Copy)]
pub struct PebHeader {
    pub magic: [u8; 4],
    pub erase_count: u32,
    pub status: PebStatus,
    pub peb_reserved: u8,
    pub version: u8,
    pub reserved: u8,
}

impl PebHeader {
    pub open spec fn encoded(self) -> Seq<u8> {
        self.magic@ + u32_bytes(self.erase_count) + seq![
            self.status.value(),
            self.peb_reserved,
            self.version,
            self.reserved,
        ]
    }

    /// The magic spells "NVDM".
    pub open spec fn magic_ok(s: Seq<u8>) -> bool {
        s[0] == 0x4E && s[1] == 0x56 && s[2] == 0x44 && s[3] == 0x4D
    }

    /// `self` is what decoding the 12 bytes `s` gives.
    pub open spec fn parsed_from(self, s: Seq<u8>) -> bool {
        &&& self.magic@ == s.subrange(0, 4)
        &&& self.erase_count == le32(s, 4)
        &&& self.status == PebStatus::spec_from_u8(s[8])
        &&& self.peb_reserved == s[9]
        &&& self.version == s[10]
        &&& self.reserved == s[11]
    }

    /// Decodes an erase-block header; a wrong magic is refused.
    pub fn read_from(r: &mut ByteReader) -> (res: Result<PebHeader, Error>)
        ensures
            final(r).data@ == old(r).data@,
            res is Ok <==> old(r).has(12) && Self::magic_ok(old(r).window(12)),
            res matches Ok(h) ==> h.parsed_from(old(r).window(12)) && final(r).pos == old(r).pos
                + 12,
            old(r).has(12) && !Self::magic_ok(old(r).window(12)) ==> res == Err::<PebHeader, Error>(
                Error::InvalidState(StateIssue::BadMagic),
            ),
    {
        let w = r.read_vec(12)?;
        let s = w.as_slice();
        if s[0] != 0x4E || s[1] != 0x56 || s[2] != 0x44 || s[3] != 0x4D {
            return Err(Error::InvalidState(StateIssue::BadMagic));
        }
        Ok(
            PebHeader {
                magic: crate::bytes::get_array::<4>(s, 0),
                erase_count: get_u32(s, 4),
                status: PebStatus::from_u8(s[8]),
                peb_reserved: s[9],
                version: s[10],
                reserved: s[11],
            },
        )
    }

    pub fn write_to(&self, out: &mut Vec<u8>)
        ensures
            final(out)@ == old(out)@ + self.encoded(),
    {
        crate::bytes::write_slice(out, self.magic.as_slice());
        write_u32(out, self.erase_count);
        out.push(self.status.as_u8());
        out.push(self.peb_reserved);
        out.push(self.version);
        out.push(self.reserved);
        assert(final(out)@ =~= old(out)@ + self.encoded());
    }
}

/// The erase-block size of the port.
pub const NVDM_PORT_PEB_SIZE: u32 = 4096;

/// The data items of an NVDM region, in the order they were found.
#[derive(Debug)]
pub struct NVDM {
    pub peb_size: u32,
    pub items: Vec<DataItem>,
}

/// The items of `items` in group `group` with status `status`, in order.
pub open spec fn items_of_group(items: Seq<DataItem>, group: Seq<char>, status: DataItemStatus) -> Seq<DataItem>
    decreases items.len(),
{
    if items.len() == 0 {
        Seq::empty()
    } else {
        let prev = items_of_group(items.drop_last(), group, status);
        if items.last().group_name@ == group && items.last().header.status == status {
            prev.push(items.last())
        } else {
            prev
        }
    }
}

/// The group names of `items`, each once, in the order of their first item.
pub open spec fn group_names(items: Seq<DataItem>) -> Seq<Seq<char>>
    decreases items.len(),
{
    if items.len() == 0 {
        Seq::empty()
    } else {
        let prev = group_names(items.drop_last());
        if prev.contains(items.last().group_name@) {
            prev
        } else {
            prev.push(items.last().group_name@)
        }
    }
}

/// An item is kept when decoding: deleted, valid or being written.
pub open spec fn kept_status(s: DataItemStatus) -> bool {
    s == DataItemStatus::Delete || s == DataItemStatus::Valid || s == DataItemStatus::Writing
}

impl NVDM {
    pub fn from_peb_size(peb_size: u32) -> (r: Self)
        ensures
            r.peb_size == peb_size,
            r.items@.len() == 0,
    {
        NVDM { peb_size, items: Vec::new() }
    }

    /// The address of `offset` within erase block `pnum`.
    pub fn nvdm_port_get_peb_address(&self, pnum: u32, offset: u32) -> (r: u32)
        requires
            pnum * self.peb_size + offset <= u32::MAX,
        ensures
            r == pnum * self.peb_size + offset,
    {
        proof {
            vstd::arithmetic::mul::lemma_mul_nonnegative(pnum as int, self.peb_size as int);
        }
        pnum * self.peb_size + offset
    }

    /// The first item of `group` named `name` with status `status`.
    pub fn get_item(&self, group: &str, name: &str, status: DataItemStatus) -> (r: Option<&DataItem>)
        ensures
            r is None <==> !exists|i: int|
                0 <= i < self.items@.len() && #[trigger] self.items@[i].group_name@ == group@
                    && self.items@[i].item_name@ == name@ && self.items@[i].header.status == status,
            r matches Some(x) ==> x.group_name@ == group@ && x.item_name@ == name@
                && x.header.status == status && exists|i: int|
                0 <= i < self.items@.len() && self.items@[i] == *x,
    {
        let g = group.to_owned();
        let n = name.to_owned();
        let mut i: usize = 0;
        while i < self.items.len()
            invariant
                i <= self.items@.len(),
                g@ == group@,
                n@ == name@,
                forall|j: int|
                    0 <= j < i ==> !(#[trigger] self.items@[j].group_name@ == group@
                        && self.items@[j].item_name@ == name@ && self.items@[j].header.status
                        == status),
            decreases self.items@.len() - i,
        {
            let item = &self.items[i];
            if item.group_name == g && item.item_name == n && item.header.status == status {
                return Some(item);
            }
            i = i + 1;
        }
        None
    }

    /// The items of `group` with status `status`, in order.
    pub fn get_items_by_group(&self, group: &str, status: DataItemStatus) -> (r: Vec<&DataItem>)
        ensures
            r@.len() == items_of_group(self.items@, group@, status).len(),
            forall|k: int|
                0 <= k < r@.len() ==> *r@[k] == #[trigger] items_of_group(
                    self.items@,
                    group@,
                    status,
                )[k],
    {
        let g = group.to_owned();
        let mut out: Vec<&DataItem> = Vec::new();
        let mut i: usize = 0;
        while i < self.items.len()
            invariant
                i <= self.items@.len(),
                g@ == group@,
                out@.len() == items_of_group(self.items@.subrange(0, i as int), group@, status).len(),
                forall|k: int|
                    0 <= k < out@.len() ==> *out@[k] == #[trigger] items_of_group(
                        self.items@.subrange(0, i as int),
                        group@,
                        status,
                    )[k],
            decreases self.items@.len() - i,
        {
            let item = &self.items[i];
            assert(self.items@.subrange(0, i + 1).drop_last() =~= self.items@.subrange(0, i as int));
            assert(self.items@.subrange(0, i + 1).last() == self.items@[i as int]);
            if item.group_name == g && item.header.status == status {
                out.push(item);
            }
            i = i + 1;
        }
        assert(self.items@.subrange(0, self.items@.len() as int) =~= self.items@);
        out
    }

    /// The group names, each once, in the order of their first item.
    #[verifier::rlimit(60)]
    pub fn get_groups(&self) -> (r: Vec<&str>)
        ensures
            r@.len() == group_names(self.items@).len(),
            forall|k: int| 0 <= k < r@.len() ==> (#[trigger] r@[k])@ == group_names(self.items@)[k],
    {
        let mut names: Vec<String> = Vec::new();
        let mut out: Vec<&str> = Vec::new();
        let mut i: usize = 0;
        while i < self.items.len()
            invariant
                i <= self.items@.len(),
                names@.len() == out@.len(),
                out@.len() == group_names(self.items@.subrange(0, i as int)).len(),
                forall|k: int| 0 <= k < out@.len() ==> (#[trigger] out@[k])@ == names@[k]@,
                forall|k: int|
                    0 <= k < out@.len() ==> (#[trigger] names@[k])@ == group_names(
                        self.items@.subrange(0, i as int),
                    )[k],
            decreases self.items@.len() - i,
        {
            let item = &self.items[i];
            let ghost prev = group_names(self.items@.subrange(0, i as int));
            let mut seen = false;
            let mut k: usize = 0;
            while k < names.len()
                invariant
                    k <= names@.len(),
                    names@.len() == prev.len(),
                    forall|m: int| 0 <= m < names@.len() ==> (#[trigger] names@[m])@ == prev[m],
                    seen <==> exists|m: int| 0 <= m < k && (#[trigger] names@[m])@ == item.group_name@,
                decreases names@.len() - k,
            {
                if names[k] == item.group_name {
                    seen = true;
                }
                k = k + 1;
            }
            assert(self.items@.subrange(0, i + 1).drop_last() =~= self.items@.subrange(0, i as int));
            assert(self.items@.subrange(0, i + 1).last() == self.items@[i as int]);
            assert(seen <==> prev.contains(item.group_name@)) by {
                if seen {
                    let m = choose|m: int| 0 <= m < names@.len() && (#[trigger] names@[m])@ == item.group_name@;
                    assert(prev[m] == item.group_name@);
                }
                if prev.contains(item.group_name@) {
                    let m = choose|m: int| 0 <= m < prev.len() && prev[m] == item.group_name@;
                    assert(names@[m]@ == item.group_name@);
                }
            }
            if !seen {
                names.push(item.group_name.clone());
                out.push(item.group_name.as_str());
            }
            i = i + 1;
        }
        assert(self.items@.subrange(0, self.items@.len() as int) =~= self.items@);
        out
    }

    /// Decodes the data items of every active erase block from the cursor to the
    /// end. An item with another status ends its block.
    #[verifier::rlimit(60)]
    pub fn read_from(&mut self, r: &mut ByteReader) -> (res: Result<(), Error>)
        requires
            old(self).peb_size >= 0x20,
            old(r).pos <= old(r).data@.len(),
        ensures
            final(r).data@ == old(r).data@,
            final(self).peb_size == old(self).peb_size,
            res is Ok ==> final(self).items@.len() >= old(self).items@.len(),
            res is Ok ==> forall|k: int|
                old(self).items@.len() <= k < final(self).items@.len() ==> kept_status(
                    #[trigger] final(self).items@[k].header.status,
                ),
    {
        let start = r.position();
        let total = r.len();
        let size = total - start;
        let peb = self.peb_size as usize;
        let count = size / peb;
        let ghost n0 = self.items@.len();
        proof {
            vstd::arithmetic::div_mod::lemma_fundamental_div_mod(size as int, peb as int);
            vstd::arithmetic::mul::lemma_mul_is_commutative(count as int, peb as int);
            vstd::arithmetic::div_mod::lemma_mod_pos_bound(size as int, peb as int);
        }
        let mut pnum: usize = 0;
        while pnum < count
            invariant
                r.data@ == old(r).data@,
                self.peb_size == old(self).peb_size,
                peb == self.peb_size,
                peb >= 0x20,
                total == r.data@.len(),
                start <= r.data@.len(),
                count * peb <= r.data@.len() - start,
                pnum <= count,
                self.items@.len() >= n0,
                n0 == old(self).items@.len(),
                forall|k: int| n0 <= k < self.items@.len() ==> kept_status(
                    #[trigger] self.items@[k].header.status,
                ),
            decreases count - pnum,
        {
            proof {
                vstd::arithmetic::mul::lemma_mul_inequality(pnum as int, count as int, peb as int);
                vstd::arithmetic::mul::lemma_mul_is_commutative(pnum as int, peb as int);
                vstd::arithmetic::mul::lemma_mul_is_commutative(count as int, peb as int);
            }
            let address = start + pnum * peb;
            r.seek(address);
            let header = PebHeader::read_from(r)?;
            if header.status == PebStatus::Actived {
                let mut offset: u64 = 0;
                while offset < (peb - 0x20) as u64
                    invariant
                        r.data@ == old(r).data@,
                        self.peb_size == old(self).peb_size,
                        peb == self.peb_size,
                        peb >= 0x20,
                        offset <= (peb - 0x20) as int + 0x40000,
                        self.items@.len() >= n0,
                        n0 == old(self).items@.len(),
                        forall|k: int| n0 <= k < self.items@.len() ==> kept_status(
                            #[trigger] self.items@[k].header.status,
                        ),
                    decreases (peb - 0x20) as int + 0x40000 - offset as int,
                {
                    let item = DataItem::read_from(r)?;
                    let s = item.header.status;
                    if s == DataItemStatus::Delete || s == DataItemStatus::Valid || s
                        == DataItemStatus::Writing {
                        offset = offset + item.item_size() as u64;
                        self.items.push(item);
                    } else {
                        break;
                    }
                }
            }
            pnum = pnum + 1;
        }
        Ok(())
    }
}

} // verus!

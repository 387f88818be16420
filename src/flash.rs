//! The whole flash: calibration pattern, partition table, system data and the
//! partitions that the table places.
use vstd::prelude::*;

use crate::boot::BootImage;
use crate::bytes::{align_pad, fill, le32, write_aligned, write_fill, write_slice, ByteReader};
use crate::enums::PartitionType;
use crate::error::{Error, StateIssue, Unsupported};
use crate::image::EncryptedOr;
use crate::ota::OTAImage;
use crate::pt::{first_record, pt_body_ok, pti_decodable, PartTab, PartitionTableImage, Record};
use crate::sysctrl::SystemData;

verus! {

/// The number of partition types.
pub const PARTITION_TYPES: usize = 10;

/// Where the system data starts: the first 0x1000 boundary after the partition table.
pub const SYSTEM_ALIGN: usize = 0x1000;

/// The blank calibration and reserved regions that follow the system data.
pub const RESERVED_SPAN: u64 = 0x2000;

/// What remains of `d` from `p` on.
pub open spec fn rest_from(d: Seq<u8>, p: int) -> Seq<u8> {
    if 0 <= p <= d.len() {
        d.subrange(p, d.len() as int)
    } else {
        Seq::empty()
    }
}

/// The content of one partition, by its type.
#[derive(Debug)]
pub enum Partition {
    PartitionTable(PartitionTableImage),
    Bootloader(BootImage),
    Calibration,
    Fw1(OTAImage),
    Fw2(OTAImage),
    Reserved,
    Var(Vec<u8>),
    System(SystemData),
    User(Vec<u8>),
    Mp(Vec<u8>),
}

impl Partition {
    /// The bytes of the partition when its encoding starts at offset `pos`.
    pub open spec fn encoded_at(&self, pos: int) -> Seq<u8> {
        match self {
            Partition::PartitionTable(x) => x.encoded(),
            Partition::Bootloader(x) => x.encoded_at(pos),
            Partition::Calibration => Seq::empty(),
            Partition::Fw1(x) => x.encoded_at(pos),
            Partition::Fw2(x) => x.encoded_at(pos),
            Partition::Reserved => Seq::empty(),
            Partition::Var(v) => v@,
            Partition::System(x) => x.encoded(),
            Partition::User(v) => v@,
            Partition::Mp(v) => v@,
        }
    }

    /// The partition can be encoded (a partition table must have records).
    pub open spec fn write_ok(&self) -> bool {
        match self {
            Partition::PartitionTable(x) => pt_body_ok(x.pt),
            _ => true,
        }
    }

    /// The variant that a partition of type `t` decodes to.
    pub open spec fn has_kind(&self, t: PartitionType) -> bool {
        match t {
            PartitionType::PartTab => self is PartitionTable,
            PartitionType::Boot => self is Bootloader,
            PartitionType::Fw1 => self is Fw1,
            PartitionType::Fw2 => self is Fw2,
            PartitionType::Sys => self is System,
            PartitionType::Cal => self is Calibration,
            PartitionType::User => self is User,
            PartitionType::Var => self is Var,
            PartitionType::MP => self is Mp,
            PartitionType::Rdp => self is Reserved,
        }
    }

    /// A partition of type `t` decodes at `p` in `d`. Calibration and reserved
    /// partitions read nothing, and raw ones take whatever is left.
    pub open spec fn decodable_for(t: PartitionType, d: Seq<u8>, p: int) -> bool {
        match t {
            PartitionType::PartTab => pti_decodable(d, p),
            PartitionType::Boot => BootImage::decodable_at(d, p),
            PartitionType::Fw1 => OTAImage::decodable_at(d, p),
            PartitionType::Fw2 => OTAImage::decodable_at(d, p),
            PartitionType::Sys => 0 <= p && p + 0x1000 <= d.len(),
            _ => true,
        }
    }

    /// `self` is what decoding a partition at `p` in `d` gives.
    pub open spec fn parsed_at(&self, d: Seq<u8>, p: int) -> bool {
        match self {
            Partition::PartitionTable(x) => x.parsed_from(d, p),
            Partition::Bootloader(x) => x.parsed_at(d, p),
            Partition::Fw1(x) => x.parsed_at(d, p),
            Partition::Fw2(x) => x.parsed_at(d, p),
            Partition::System(x) => x.parsed_from(d.subrange(p, p + 0x1000)),
            Partition::Var(v) => v@ == rest_from(d, p),
            Partition::User(v) => v@ == rest_from(d, p),
            Partition::Mp(v) => v@ == rest_from(d, p),
            Partition::Calibration => true,
            Partition::Reserved => true,
        }
    }

    /// Everything from the cursor to the end (nothing when the cursor lies past it).
    fn read_raw_image(r: &mut ByteReader) -> (res: Result<Vec<u8>, Error>)
        ensures
            final(r).data@ == old(r).data@,
            res matches Ok(v) && v@ == rest_from(old(r).data@, old(r).pos as int),
    {
        if r.position() > r.len() {
            return Ok(Vec::new());
        }
        let rest = r.len() - r.position();
        r.read_vec(rest)
    }

    /// Decodes the partition that `record` describes, at the cursor.
    pub fn from_record(record: &Record, r: &mut ByteReader) -> (res: Result<Partition, Error>)
        ensures
            final(r).data@ == old(r).data@,
            res is Ok <==> Self::decodable_for(record.part_type, old(r).data@, old(r).pos as int),
            res matches Ok(p) ==> p.has_kind(record.part_type) && p.parsed_at(
                old(r).data@,
                old(r).pos as int,
            ),
    {
        let beyond = r.position() > r.len();
        match record.part_type {
            PartitionType::PartTab => {
                if beyond {
                    return Err(Error::UnexpectedEof);
                }
                Ok(Partition::PartitionTable(PartitionTableImage::read_from(r)?))
            },
            PartitionType::Boot => Ok(Partition::Bootloader(BootImage::read_from(r)?)),
            PartitionType::Fw1 => {
                if beyond {
                    return Err(Error::UnexpectedEof);
                }
                Ok(Partition::Fw1(OTAImage::read_from(r)?))
            },
            PartitionType::Fw2 => {
                if beyond {
                    return Err(Error::UnexpectedEof);
                }
                Ok(Partition::Fw2(OTAImage::read_from(r)?))
            },
            PartitionType::Cal => Ok(Partition::Calibration),
            PartitionType::Sys => Ok(Partition::System(SystemData::read_from(r)?)),
            PartitionType::User => Ok(Partition::User(Self::read_raw_image(r)?)),
            PartitionType::Var => Ok(Partition::Var(Self::read_raw_image(r)?)),
            PartitionType::MP => Ok(Partition::Mp(Self::read_raw_image(r)?)),
            PartitionType::Rdp => Ok(Partition::Reserved),
        }
    }

    /// Encodes the partition; an empty calibration or reserved region writes nothing.
    pub fn write_to(&self, out: &mut Vec<u8>) -> (r: Result<(), Error>)
        ensures
            r is Ok <==> self.write_ok(),
            r is Ok ==> final(out)@ == old(out)@ + self.encoded_at(old(out)@.len() as int),
            r is Err ==> r == Err::<(), Error>(Error::InvalidState(StateIssue::EmptyPartitionTable))
                && final(out)@ == old(out)@,
    {
        match self {
            Partition::PartitionTable(x) => x.write_to(out),
            Partition::Bootloader(x) => {
                x.write_to(out);
                Ok(())
            },
            Partition::Calibration => {
                assert(old(out)@ + Seq::<u8>::empty() =~= old(out)@);
                Ok(())
            },
            Partition::Fw1(x) => {
                x.write_to(out);
                Ok(())
            },
            Partition::Fw2(x) => {
                x.write_to(out);
                Ok(())
            },
            Partition::Reserved => {
                assert(old(out)@ + Seq::<u8>::empty() =~= old(out)@);
                Ok(())
            },
            Partition::Var(v) => {
                write_slice(out, v.as_slice());
                Ok(())
            },
            Partition::System(x) => {
                x.write_to(out);
                Ok(())
            },
            Partition::User(v) => {
                write_slice(out, v.as_slice());
                Ok(())
            },
            Partition::Mp(v) => {
                write_slice(out, v.as_slice());
                Ok(())
            },
        }
    }
}

/// The flash: a calibration pattern and one slot per partition type, indexed by
/// the type's code.
#[derive(Debug)]
pub struct Flash {
    pub calibration_pattern: [u8; 16],
    pub partitions: Vec<Option<Partition>>,
}

impl Default for Flash {
    fn default() -> (r: Self)
        ensures
            r.wf(),
            r.calibration_pattern@ == fill(0, 16),
            forall|i: int| 0 <= i < PARTITION_TYPES ==> r.partitions@[i] is None,
    {
        let mut partitions: Vec<Option<Partition>> = Vec::new();
        let mut i: usize = 0;
        while i < PARTITION_TYPES
            invariant
                i <= PARTITION_TYPES,
                partitions@.len() == i,
                forall|j: int| 0 <= j < i ==> partitions@[j] is None,
            decreases PARTITION_TYPES - i,
        {
            partitions.push(None);
            i = i + 1;
        }
        let r = Flash { calibration_pattern: [0; 16], partitions };
        assert(r.calibration_pattern@ =~= fill(0, 16));
        r
    }
}

/// The bytes written before the partitions that the table places: calibration
/// pattern, blank bytes, the table (then zeros up to a 0x1000 boundary, none when
/// it already ends on one), the system data and the blank calibration and reserved
/// regions.
pub open spec fn head_bytes(pattern: Seq<u8>, pos: int, table: Seq<u8>, system: Seq<u8>) -> Seq<u8> {
    let after = pos + 32 + table.len();
    pattern + fill(0xFF, 16) + table + fill(0, align_pad(after, 0x1000) as nat) + system + fill(
        0xFF,
        0x2000,
    )
}

impl Flash {
    /// One slot per partition type.
    pub open spec fn wf(&self) -> bool {
        self.partitions@.len() == PARTITION_TYPES
    }

    /// The partition of type `t`, if the flash holds one.
    pub open spec fn partition(&self, t: PartitionType) -> Option<Partition> {
        self.partitions@[t.value() as int]
    }

    /// The bytes that placing the partition of type `t` appends at offset `pos`:
    /// blank bytes up to its record's start, then its encoding; nothing when the
    /// table has no record of that type. `None` when that fails.
    pub open spec fn place(&self, pt: PartTab, t: PartitionType, pos: int) -> Option<Seq<u8>> {
        match first_record(pt.records@, t) {
            None => Some(Seq::empty()),
            Some(rec) => {
                if pos > rec.start_addr {
                    None
                } else {
                    match self.partition(t) {
                        Some(p) if p.write_ok() => Some(
                            fill(0xFF, (rec.start_addr - pos) as nat) + p.encoded_at(
                                rec.start_addr as int,
                            ),
                        ),
                        _ => None,
                    }
                }
            },
        }
    }

    /// The bytes that placing boot, firmware 1, firmware 2 and user partitions, in
    /// that order, appends at offset `pos`; `None` when one of them fails.
    pub open spec fn placed(&self, pt: PartTab, pos: int) -> Option<Seq<u8>> {
        match self.place(pt, PartitionType::Boot, pos) {
            None => None,
            Some(a) => match self.place(pt, PartitionType::Fw1, pos + a.len()) {
                None => None,
                Some(b) => match self.place(pt, PartitionType::Fw2, pos + a.len() + b.len()) {
                    None => None,
                    Some(c) => match self.place(
                        pt,
                        PartitionType::User,
                        pos + a.len() + b.len() + c.len(),
                    ) {
                        None => None,
                        Some(e) => Some(a + b + c + e),
                    },
                },
            },
        }
    }

    /// The flash holds a partition table whose body is encrypted, and system data.
    pub open spec fn table_encrypted(&self) -> bool {
        &&& self.partition(PartitionType::PartTab) matches Some(Partition::PartitionTable(x))
        &&& x.pt is Encrypted
        &&& self.partition(PartitionType::Sys) matches Some(Partition::System(_))
    }

    /// A flash image decodes at `p` in `d`: the pattern and blank bytes, the
    /// partition-table image after them, and, when its table is not encrypted, the
    /// partition of every record at the record's start.
    pub open spec fn decodable_at(d: Seq<u8>, p: int) -> bool {
        let ip = p + 32;
        let hw = d.subrange(ip + 64, ip + 160);
        let s = d.subrange(ip + 160, d.len() as int);
        &&& p + 32 <= d.len()
        &&& pti_decodable(d, ip)
        &&& (hw[9] != 0 || forall|i: int|
            0 <= i < PartTab::record_count(s) ==> Partition::decodable_for(
                PartitionType::from_value(#[trigger] PartTab::record_window(s, i)[8])->Some_0,
                d,
                le32(PartTab::record_window(s, i), 0) as int,
            ))
    }

    /// Each record of the held table has its partition held, and each partition
    /// held (but the table) is what decoding at the start of a record of its type
    /// gives; an encrypted table places nothing.
    pub open spec fn records_placed(&self, d: Seq<u8>) -> bool {
        match self.partition(PartitionType::PartTab) {
            Some(Partition::PartitionTable(x)) => match x.pt {
                EncryptedOr::Plain(t) => {
                    &&& forall|j: int|
                        0 <= j < t.records@.len() ==> (#[trigger] self.partition(
                            t.records@[j].part_type,
                        )) is Some
                    &&& forall|ty: PartitionType|
                        ty != PartitionType::PartTab && (#[trigger] self.partition(ty)) is Some
                            ==> exists|j: int|
                            0 <= j < t.records@.len() && t.records@[j].part_type == ty
                                && self.partition(ty)->Some_0.parsed_at(
                                d,
                                t.records@[j].start_addr as int,
                            )
                },
                EncryptedOr::Encrypted(_) => forall|ty: PartitionType|
                    ty != PartitionType::PartTab ==> (#[trigger] self.partition(ty)) is None,
            },
            _ => false,
        }
    }

    /// Every partition held has the variant of its slot's type.
    pub open spec fn kinds_ok(&self) -> bool {
        forall|t: PartitionType|
            #[trigger] self.partition(t) is Some ==> self.partition(t)->Some_0.has_kind(t)
    }

    /// The bytes that encoding the flash at offset `pos` writes; `None` when it fails.
    pub open spec fn encoding(&self, pos: int) -> Option<Seq<u8>> {
        match (self.partition(PartitionType::PartTab), self.partition(PartitionType::Sys)) {
            (Some(Partition::PartitionTable(x)), Some(Partition::System(sys))) => match x.pt {
                EncryptedOr::Plain(pt) => {
                    if pt.records@.len() == 0 {
                        None
                    } else {
                        let head = head_bytes(
                            self.calibration_pattern@,
                            pos,
                            x.encoded(),
                            sys.encoded(),
                        );
                        match self.placed(pt, pos + head.len()) {
                            Some(tail) => Some(head + tail),
                            None => None,
                        }
                    }
                },
                _ => None,
            },
            _ => None,
        }
    }

    pub fn get_calibration_pattern(&self) -> (r: &[u8; 16])
        ensures
            *r == self.calibration_pattern,
    {
        &self.calibration_pattern
    }

    pub fn get_calibration_pattern_mut(&mut self) -> (r: &mut [u8; 16])
        ensures
            *r == old(self).calibration_pattern,
            final(self).calibration_pattern == *final(r),
            final(self).partitions == old(self).partitions,
    {
        &mut self.calibration_pattern
    }

    pub fn get_partition(&self, part_type: PartitionType) -> (r: Option<&Partition>)
        requires
            self.wf(),
        ensures
            r == match self.partition(part_type) {
                Some(p) => Some(&p),
                None => None,
            },
    {
        match &self.partitions[part_type.as_u8() as usize] {
            Some(p) => Some(p),
            None => None,
        }
    }

    pub fn has_partition(&self, part_type: PartitionType) -> (r: bool)
        requires
            self.wf(),
        ensures
            r == self.partition(part_type) is Some,
    {
        self.partitions[part_type.as_u8() as usize].is_some()
    }

    /// Puts `partition` in the slot of `part_type`, replacing what was there.
    pub fn set_partition(&mut self, part_type: PartitionType, partition: Partition)
        requires
            old(self).wf(),
        ensures
            final(self).wf(),
            final(self).partitions@ == old(self).partitions@.update(
                part_type.value() as int,
                Some(partition),
            ),
            final(self).calibration_pattern == old(self).calibration_pattern,
    {
        let idx = part_type.as_u8() as usize;
        self.partitions.set(idx, Some(partition));
    }

    pub fn set_system_partition(&mut self, system_data: SystemData)
        requires
            old(self).wf(),
        ensures
            final(self).wf(),
            final(self).partitions@ == old(self).partitions@.update(
                PartitionType::Sys.value() as int,
                Some(Partition::System(system_data)),
            ),
            final(self).calibration_pattern == old(self).calibration_pattern,
    {
        self.set_partition(PartitionType::Sys, Partition::System(system_data));
    }

    pub fn set_boot_partition(&mut self, boot_image: BootImage)
        requires
            old(self).wf(),
        ensures
            final(self).wf(),
            final(self).partitions@ == old(self).partitions@.update(
                PartitionType::Boot.value() as int,
                Some(Partition::Bootloader(boot_image)),
            ),
            final(self).calibration_pattern == old(self).calibration_pattern,
    {
        self.set_partition(PartitionType::Boot, Partition::Bootloader(boot_image));
    }

    pub fn set_fw1(&mut self, fw1_image: OTAImage)
        requires
            old(self).wf(),
        ensures
            final(self).wf(),
            final(self).partitions@ == old(self).partitions@.update(
                PartitionType::Fw1.value() as int,
                Some(Partition::Fw1(fw1_image)),
            ),
            final(self).calibration_pattern == old(self).calibration_pattern,
    {
        self.set_partition(PartitionType::Fw1, Partition::Fw1(fw1_image));
    }

    pub fn set_fw2(&mut self, fw2_image: OTAImage)
        requires
            old(self).wf(),
        ensures
            final(self).wf(),
            final(self).partitions@ == old(self).partitions@.update(
                PartitionType::Fw2.value() as int,
                Some(Partition::Fw2(fw2_image)),
            ),
            final(self).calibration_pattern == old(self).calibration_pattern,
    {
        self.set_partition(PartitionType::Fw2, Partition::Fw2(fw2_image));
    }

    pub fn set_partition_table(&mut self, pt_image: PartitionTableImage)
        requires
            old(self).wf(),
        ensures
            final(self).wf(),
            final(self).partitions@ == old(self).partitions@.update(
                PartitionType::PartTab.value() as int,
                Some(Partition::PartitionTable(pt_image)),
            ),
            final(self).calibration_pattern == old(self).calibration_pattern,
    {
        self.set_partition(PartitionType::PartTab, Partition::PartitionTable(pt_image));
    }

    /// Appends blank `0xFF` bytes until the output is `offset` bytes long; an output
    /// that is already longer is refused.
    fn fill_to_offset(out: &mut Vec<u8>, offset: u32) -> (r: Result<(), Error>)
        ensures
            r is Ok <==> old(out)@.len() <= offset,
            r is Ok ==> final(out)@ == old(out)@ + fill(0xFF, (offset - old(out)@.len()) as nat),
            r is Err ==> r == Err::<(), Error>(Error::InvalidState(StateIssue::PositionPastTarget))
                && final(out)@ == old(out)@,
    {
        let pos = out.len();
        if pos > offset as usize {
            return Err(Error::InvalidState(StateIssue::PositionPastTarget));
        }
        write_fill(out, 0xFF, (offset as usize - pos) as u64);
        Ok(())
    }

    /// Places the partition of type `part_type` at its record's start, if the table
    /// has a record of that type.
    #[verifier::rlimit(60)]
    fn write_partition(&self, out: &mut Vec<u8>, pt: &PartTab, part_type: PartitionType) -> (r:
        Result<(), Error>)
        requires
            self.wf(),
        ensures
            r is Ok <==> self.place(*pt, part_type, old(out)@.len() as int) is Some,
            r is Ok ==> final(out)@ == old(out)@ + self.place(
                *pt,
                part_type,
                old(out)@.len() as int,
            )->Some_0,
            r matches Err(e) ==> e is InvalidState,
    {
        match pt.get_record(part_type) {
            None => {
                assert(old(out)@ + Seq::<u8>::empty() =~= old(out)@);
                Ok(())
            },
            Some(record) => {
                Self::fill_to_offset(out, record.start_addr)?;
                match &self.partitions[part_type.as_u8() as usize] {
                    Some(partition) => {
                        partition.write_to(out)?;
                        assert(final(out)@ =~= old(out)@ + self.place(
                            *pt,
                            part_type,
                            old(out)@.len() as int,
                        )->Some_0);
                        Ok(())
                    },
                    None => Err(Error::InvalidState(StateIssue::MissingPartition)),
                }
            },
        }
    }

    /// Places boot, firmware 1, firmware 2 and user partitions, in that order.
    #[verifier::rlimit(60)]
    fn write_placed(&self, out: &mut Vec<u8>, pt: &PartTab) -> (r: Result<(), Error>)
        requires
            self.wf(),
        ensures
            r is Ok <==> self.placed(*pt, old(out)@.len() as int) is Some,
            r is Ok ==> final(out)@ == old(out)@ + self.placed(*pt, old(out)@.len() as int)->Some_0,
            r matches Err(e) ==> e is InvalidState,
    {
        self.write_partition(out, pt, PartitionType::Boot)?;
        self.write_partition(out, pt, PartitionType::Fw1)?;
        self.write_partition(out, pt, PartitionType::Fw2)?;
        self.write_partition(out, pt, PartitionType::User)?;
        assert(final(out)@ =~= old(out)@ + self.placed(*pt, old(out)@.len() as int)->Some_0);
        Ok(())
    }

    /// Encodes the flash: calibration pattern, partition table, system data, blank
    /// regions, then boot, firmware 1, firmware 2 and user partitions at the starts
    /// that the table gives (in that order, whatever the order of the records).
    #[verifier::rlimit(60)]
    pub fn write_to(&self, out: &mut Vec<u8>) -> (r: Result<(), Error>)
        requires
            self.wf(),
        ensures
            self.partition(PartitionType::PartTab) is None ==> r == Err::<(), Error>(
                Error::InvalidState(StateIssue::MissingPartitionTable),
            ),
            self.partition(PartitionType::PartTab) is Some && self.partition(
                PartitionType::PartTab,
            )->Some_0 is PartitionTable && self.partition(PartitionType::Sys) is None ==> r == Err::<
                (),
                Error,
            >(Error::InvalidState(StateIssue::MissingSystemPartition)),
            r is Ok <==> self.encoding(old(out)@.len() as int) is Some,
            r is Ok ==> final(out)@ == old(out)@ + self.encoding(old(out)@.len() as int)->Some_0,
            self.table_encrypted() ==> r == Err::<(), Error>(
                Error::NotImplemented(Unsupported::EncryptedPartitionTable),
            ),
            !self.table_encrypted() ==> (r matches Err(e) ==> e is InvalidState),
    {
        let table = match &self.partitions[PartitionType::PartTab.as_u8() as usize] {
            Some(Partition::PartitionTable(x)) => x,
            Some(_) => return Err(Error::InvalidState(StateIssue::MissingPartitionTable)),
            None => return Err(Error::InvalidState(StateIssue::MissingPartitionTable)),
        };
        let system = match &self.partitions[PartitionType::Sys.as_u8() as usize] {
            Some(Partition::System(x)) => x,
            _ => return Err(Error::InvalidState(StateIssue::MissingSystemPartition)),
        };
        let pt = match &table.pt {
            EncryptedOr::Plain(pt) => pt,
            EncryptedOr::Encrypted(_) => {
                return Err(Error::NotImplemented(Unsupported::EncryptedPartitionTable));
            },
        };
        write_slice(out, self.calibration_pattern.as_slice());
        write_fill(out, 0xFF, 16);
        table.write_to(out)?;
        write_aligned(out, SYSTEM_ALIGN, 0);
        system.write_to(out);
        write_fill(out, 0xFF, RESERVED_SPAN);
        let ghost head = head_bytes(
            self.calibration_pattern@,
            old(out)@.len() as int,
            table.encoded(),
            system.encoded(),
        );
        assert(out@ =~= old(out)@ + head);
        self.write_placed(out, pt)?;
        assert(final(out)@ =~= old(out)@ + head + self.placed(*pt, old(out)@.len() + head.len() as int)->Some_0);
        Ok(())
    }

    /// Decodes a flash image: the calibration pattern, the partition table, then
    /// each partition that a record of a decoded table places (seeking to the
    /// record's start). The table itself is stored last, under its own type.
    #[verifier::rlimit(60)]
    pub fn read_from(r: &mut ByteReader) -> (res: Result<Flash, Error>)
        requires
            old(r).pos <= old(r).data@.len(),
        ensures
            final(r).data@ == old(r).data@,
            res is Ok <==> Self::decodable_at(old(r).data@, old(r).pos as int),
            res matches Ok(f) ==> f.wf(),
            res matches Ok(f) ==> f.calibration_pattern@ == old(r).window(16),
            res matches Ok(f) ==> f.partition(PartitionType::PartTab) matches Some(
                Partition::PartitionTable(x),
            ) && x.parsed_from(old(r).data@, old(r).pos + 32),
            res matches Ok(f) ==> f.kinds_ok(),
            res matches Ok(f) ==> f.records_placed(old(r).data@),
            !old(r).has(32) ==> res is Err,
    {
        let ghost d = r.data@;
        let ghost p = r.pos as int;
        let calibration_pattern = r.read_array::<16>()?;
        r.skip(16)?;
        let pt_image = PartitionTableImage::read_from(r)?;
        let ghost ip = p + 32;
        let ghost hw = d.subrange(ip + 64, ip + 160);
        let ghost s = d.subrange(ip + 160, d.len() as int);
        assert(pt_image.header.is_encrypt == (hw[9] != 0));
        let mut flash = Flash::default();
        flash.calibration_pattern = calibration_pattern;
        if let EncryptedOr::Plain(pt) = &pt_image.pt {
            let mut i: usize = 0;
            while i < pt.records.len()
                invariant
                    flash.wf(),
                    flash.calibration_pattern == calibration_pattern,
                    r.data@ == d,
                    d == old(r).data@,
                    p == old(r).pos,
                    ip == p + 32,
                    ip + 160 <= d.len(),
                    hw == d.subrange(ip + 64, ip + 160),
                    s == d.subrange(ip + 160, d.len() as int),
                    hw[9] == 0,
                    pt.parsed_from(s),
                    i <= pt.records@.len(),
                    flash.kinds_ok(),
                    forall|j: int|
                        0 <= j < i ==> Partition::decodable_for(
                            (#[trigger] pt.records@[j]).part_type,
                            d,
                            pt.records@[j].start_addr as int,
                        ),
                    forall|j: int|
                        0 <= j < i ==> (#[trigger] flash.partition(pt.records@[j].part_type)) is Some,
                    forall|ty: PartitionType|
                        (#[trigger] flash.partition(ty)) is Some ==> exists|j: int|
                            0 <= j < i && pt.records@[j].part_type == ty && flash.partition(
                                ty,
                            )->Some_0.parsed_at(d, pt.records@[j].start_addr as int),
                decreases pt.records@.len() - i,
            {
                let record = &pt.records[i];
                let start = record.start_addr as usize;
                r.seek(start);
                assert(record.parsed_from(PartTab::record_window(s, i as int)));
                let part = match Partition::from_record(record, r) {
                    Ok(x) => x,
                    Err(e) => {
                        assert(!Self::decodable_at(d, p));
                        return Err(e);
                    },
                };
                let ghost t = record.part_type;
                let ghost bf = flash;
                let ghost newp = part;
                let ghost rec = *record;
                flash.set_partition(record.part_type, part);
                assert forall|t2: PartitionType| #[trigger] flash.partition(t2) is Some implies flash.partition(
                    t2,
                )->Some_0.has_kind(t2) by {
                    t.lemma_value_round_trip();
                    t2.lemma_value_round_trip();
                    if t2.value() == t.value() {
                        assert(t2 == t);
                        assert(flash.partition(t2) == Some(newp));
                    } else {
                        assert(flash.partition(t2) == bf.partition(t2));
                    }
                }
                assert forall|j: int| 0 <= j < i + 1 implies (#[trigger] flash.partition(
                    pt.records@[j].part_type,
                )) is Some by {
                    let t2 = pt.records@[j].part_type;
                    t.lemma_value_round_trip();
                    t2.lemma_value_round_trip();
                    if t2.value() != t.value() {
                        assert(flash.partition(t2) == bf.partition(t2));
                    }
                }
                assert forall|ty: PartitionType| (#[trigger] flash.partition(ty)) is Some implies exists|j: int|
                    0 <= j < i + 1 && pt.records@[j].part_type == ty && flash.partition(
                        ty,
                    )->Some_0.parsed_at(d, pt.records@[j].start_addr as int) by {
                    t.lemma_value_round_trip();
                    ty.lemma_value_round_trip();
                    if ty.value() == t.value() {
                        assert(ty == t);
                        assert(pt.records@[i as int] == rec);
                    } else {
                        assert(flash.partition(ty) == bf.partition(ty));
                    }
                }
                i = i + 1;
            }
            assert forall|k: int| 0 <= k < PartTab::record_count(s) implies Partition::decodable_for(
                PartitionType::from_value(#[trigger] PartTab::record_window(s, k)[8])->Some_0,
                d,
                le32(PartTab::record_window(s, k), 0) as int,
            ) by {
                assert(pt.records@[k].parsed_from(PartTab::record_window(s, k)));
                assert(Partition::decodable_for(
                    pt.records@[k].part_type,
                    d,
                    pt.records@[k].start_addr as int,
                ));
            }
        }
        let ghost bf = flash;
        flash.set_partition(PartitionType::PartTab, Partition::PartitionTable(pt_image));
        assert forall|t2: PartitionType| #[trigger] flash.partition(t2) is Some implies flash.partition(
            t2,
        )->Some_0.has_kind(t2) by {
            PartitionType::PartTab.lemma_value_round_trip();
            t2.lemma_value_round_trip();
            if t2.value() != 0 {
                assert(flash.partition(t2) == bf.partition(t2));
            }
        }
        assert forall|t2: PartitionType| t2 != PartitionType::PartTab implies #[trigger] flash.partition(t2)
            == bf.partition(t2) by {
            PartitionType::PartTab.lemma_value_round_trip();
            t2.lemma_value_round_trip();
        }
        Ok(flash)
    }
}

} // verus!

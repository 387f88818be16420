//! The partition table: trap configurations, partition records, the table itself
//! and the signed image that carries it.
use vstd::prelude::*;

use crate::bytes::{
    lemma_le32_round_trip, all_ff, fill, get_array, get_u16, get_u32, is_all_ff, le16, le32, lemma_le16_window,
    lemma_le32_window, lemma_sentinel_round_trip, canonical_opt, opt_view, sentinel_bytes,
    sentinel_opt, u16_bytes, u32_bytes, write_fill, write_optional, write_slice, write_u16,
    write_u32, ByteReader,
};
use crate::enums::{KeyExportOp, PartitionType};
use crate::error::{EnumKind, Error, ImageLayer, StateIssue};
use crate::hash::{hmac_sha256_array, hmac_sha256_of, MAX_HMAC_KEY_LEN};
use crate::header::{bool_byte, BinarySize, ImageHeader, KeyBlock};
use crate::image::{AsImage, EncryptedOr};

verus! {

/// A trap pin configuration, packed into 16 bits: bit 15 valid, bit 8 level,
/// bits 5-7 port, bits 0-4 pin.
#[derive(Debug, Clone, Copy, PartialEq, Eq, Structural)]
pub struct TrapConfig {
    pub valid: bool,
    pub level: u8,
    pub port: u8,
    pub pin: u8,
}

impl Default for TrapConfig {
    fn default() -> (r: Self)
        ensures
            r == (TrapConfig { valid: false, level: 0, port: 0, pin: 0 }),
    {
        TrapConfig { valid: false, level: 0, port: 0, pin: 0 }
    }
}

impl TrapConfig {
    /// The fields fit their bit widths.
    pub open spec fn fits(self) -> bool {
        self.level <= 1 && self.port <= 7 && self.pin <= 31
    }

    pub open spec fn spec_from_u16(v: u16) -> TrapConfig {
        TrapConfig {
            valid: ((v >> 15u16) & 1u16) != 0,
            level: ((v >> 8u16) & 1u16) as u8,
            port: ((v >> 5u16) & 7u16) as u8,
            pin: (v & 0x1Fu16) as u8,
        }
    }

    pub open spec fn spec_to_u16(self) -> u16 {
        ((if self.valid {
            1u16
        } else {
            0u16
        }) << 15u16) | ((self.level as u16) << 8u16) | ((self.port as u16) << 5u16) | (
        self.pin as u16)
    }

    /// Unpacks a trap configuration; every value decodes.
    pub fn from_u16(v: u16) -> (r: TrapConfig)
        ensures
            r == Self::spec_from_u16(v),
    {
        TrapConfig {
            valid: ((v >> 15u16) & 1u16) != 0,
            level: ((v >> 8u16) & 1u16) as u8,
            port: ((v >> 5u16) & 7u16) as u8,
            pin: (v & 0x1Fu16) as u8,
        }
    }

    /// Packs the configuration into its 16-bit form.
    pub fn to_u16(&self) -> (r: u16)
        ensures
            r == self.spec_to_u16(),
    {
        ((if self.valid {
            1u16
        } else {
            0u16
        }) << 15u16) | ((self.level as u16) << 8u16) | ((self.port as u16) << 5u16) | (
        self.pin as u16)
    }

    /// Unpacking what was packed gives back a configuration whose fields fit their bits.
    pub proof fn lemma_round_trip(self)
        requires
            self.fits(),
        ensures
            Self::spec_from_u16(self.spec_to_u16()) == self,
    {
        let l = self.level as u16;
        let p = self.port as u16;
        let n = self.pin as u16;
        let b: u16 = if self.valid {
            1
        } else {
            0
        };
        assert(l <= 1 && p <= 7 && n <= 31 && b <= 1 ==> {
            let v = (b << 15u16) | (l << 8u16) | (p << 5u16) | n;
            &&& ((v >> 15u16) & 1u16) == b
            &&& ((v >> 8u16) & 1u16) == l
            &&& ((v >> 5u16) & 7u16) == p
            &&& (v & 0x1Fu16) == n
        }) by (bit_vector);
    }
}

pub const RECORD_SIZE: usize = 0x40;

/// A partition record: where a partition lies, its type, and an optional hash key
/// whose presence a flag byte records.
#[derive(Debug, Clone, Copy)]
pub struct Record {
    pub start_addr: u32,
    pub length: u32,
    pub part_type: PartitionType,
    pub dbg_skip: bool,
    pub hash_key: Option<[u8; 32]>,
}

impl BinarySize for Record {
    open spec fn spec_binary_size() -> nat {
        0x40
    }

    fn binary_size() -> (r: usize) {
        RECORD_SIZE
    }
}

impl Default for Record {
    fn default() -> (r: Self)
        ensures
            r.start_addr == 0,
            r.length == 0,
            r.part_type == PartitionType::PartTab,
            !r.dbg_skip,
            r.hash_key is None,
    {
        Record {
            start_addr: 0,
            length: 0,
            part_type: PartitionType::PartTab,
            dbg_skip: false,
            hash_key: None,
        }
    }
}

impl Record {
    pub open spec fn spec_hash_key_valid(self) -> bool {
        match self.hash_key {
            Some(k) => !all_ff(k@),
            None => false,
        }
    }

    pub open spec fn encoded(self) -> Seq<u8> {
        u32_bytes(self.start_addr) + u32_bytes(self.length) + seq![
            self.part_type.value(),
            bool_byte(self.dbg_skip),
        ] + fill(0xFF, 6) + seq![bool_byte(self.hash_key is Some)] + fill(0xFF, 15)
            + sentinel_bytes(self.hash_key)
    }

    /// The 64 bytes `s` decode: their partition type is known.
    pub open spec fn decodable(s: Seq<u8>) -> bool {
        PartitionType::from_value(s[8]) is Some
    }

    /// `self` is what decoding the 64 bytes `s` gives.
    pub open spec fn parsed_from(self, s: Seq<u8>) -> bool {
        &&& self.start_addr == le32(s, 0)
        &&& self.length == le32(s, 4)
        &&& PartitionType::from_value(s[8]) == Some(self.part_type)
        &&& self.dbg_skip == (s[9] != 0)
        &&& opt_view(self.hash_key) == if (s[16] & 1u8) != 0u8 {
            Some(s.subrange(32, 64))
        } else {
            None
        }
    }

    pub fn read_from(r: &mut ByteReader) -> (res: Result<Record, Error>)
        ensures
            final(r).data@ == old(r).data@,
            res is Ok <==> old(r).has(0x40) && Self::decodable(old(r).window(0x40)),
            res matches Ok(x) ==> x.parsed_from(old(r).window(0x40)) && final(r).pos == old(
                r,
            ).pos + 0x40,
            !old(r).has(0x40) ==> res == Err::<Record, Error>(Error::UnexpectedEof),
            old(r).has(0x40) && !Self::decodable(old(r).window(0x40)) ==> res == Err::<Record, Error>(
                Error::UnknownEnumValue(EnumKind::PartitionType, old(r).window(0x40)[8] as u32),
            ),
    {
        let w = r.read_vec(0x40)?;
        let s = w.as_slice();
        let part_type = PartitionType::try_from_u8(s[8])?;
        let hash_key = if s[16] & 1 != 0 {
            Some(get_array::<32>(s, 32))
        } else {
            None
        };
        Ok(
            Record {
                start_addr: get_u32(s, 0),
                length: get_u32(s, 4),
                part_type,
                dbg_skip: s[9] != 0,
                hash_key,
            },
        )
    }

    pub fn write_to(&self, out: &mut Vec<u8>)
        ensures
            final(out)@ == old(out)@ + self.encoded(),
    {
        write_u32(out, self.start_addr);
        write_u32(out, self.length);
        out.push(self.part_type.as_u8());
        out.push(if self.dbg_skip { 1 } else { 0 });
        write_fill(out, 0xFF, 6);
        out.push(if self.hash_key.is_some() { 1 } else { 0 });
        write_fill(out, 0xFF, 15);
        write_optional(out, &self.hash_key);
        assert(final(out)@ =~= old(out)@ + self.encoded());
    }

    /// Decoding the encoding of a record gives it back; the encoding is 64 bytes.
    pub proof fn lemma_round_trip(self)
        ensures
            self.encoded().len() == Self::spec_binary_size(),
            Self::decodable(self.encoded()),
            self.parsed_from(self.encoded()),
    {
        let e = self.encoded();
        assert(e.subrange(0, 4) =~= u32_bytes(self.start_addr));
        assert(e.subrange(4, 8) =~= u32_bytes(self.length));
        lemma_le32_window(e, 0, self.start_addr);
        lemma_le32_window(e, 4, self.length);
        self.part_type.lemma_value_round_trip();
        assert(e[8] == self.part_type.value());
        assert(e[16] == bool_byte(self.hash_key is Some));
        assert((1u8 & 1u8) == 1u8 && (0u8 & 1u8) == 0u8) by (bit_vector);
        assert(e.subrange(32, 64) =~= sentinel_bytes(self.hash_key));
    }

    pub fn hash_key_valid(&self) -> (r: bool)
        ensures
            r == self.spec_hash_key_valid(),
    {
        match &self.hash_key {
            None => false,
            Some(key) => !is_all_ff(key.as_slice()),
        }
    }

    pub fn get_hash_key(&self) -> (r: Option<&[u8; 32]>)
        ensures
            r == match self.hash_key {
                Some(k) => Some(&k),
                None => None,
            },
    {
        match &self.hash_key {
            Some(k) => Some(k),
            None => None,
        }
    }

    pub fn set_hash_key(&mut self, key: Option<[u8; 32]>)
        ensures
            *final(self) == (Record { hash_key: key, ..*old(self) }),
    {
        self.hash_key = key;
    }
}

/// The encodings of `rs`, one after another.
pub open spec fn records_bytes(rs: Seq<Record>) -> Seq<u8>
    decreases rs.len(),
{
    if rs.len() == 0 {
        Seq::empty()
    } else {
        records_bytes(rs.drop_last()) + rs.last().encoded()
    }
}

/// Record `i` of `rs` stands at `64 * i` in their joint encoding.
pub proof fn lemma_records_bytes(rs: Seq<Record>)
    ensures
        records_bytes(rs).len() == 64 * rs.len(),
        forall|i: int|
            0 <= i < rs.len() ==> #[trigger] records_bytes(rs).subrange(64 * i, 64 * i + 64)
                == rs[i].encoded(),
    decreases rs.len(),
{
    if rs.len() > 0 {
        let init = rs.drop_last();
        lemma_records_bytes(init);
        let b = records_bytes(rs);
        assert(b == records_bytes(init) + rs.last().encoded());
        assert forall|i: int| 0 <= i < rs.len() implies #[trigger] b.subrange(64 * i, 64 * i + 64)
            == rs[i].encoded() by {
            if i < init.len() {
                assert(init[i] == rs[i]);
                assert(records_bytes(init).subrange(64 * i, 64 * i + 64) == init[i].encoded());
                assert(b.subrange(64 * i, 64 * i + 64) =~= records_bytes(init).subrange(
                    64 * i,
                    64 * i + 64,
                ));
            } else {
                assert(b.subrange(64 * i, 64 * i + 64) =~= rs.last().encoded());
            }
        }
    }
}

/// The largest user binary that a partition table holds.
pub const USER_BIN_MAX: u32 = 0x100;

/// The partition table: table-wide settings, the partition records and a trailing
/// user binary.
#[derive(Debug, Clone)]
#[allow(non_snake_case)]
pub struct PartTab {
    pub rma_w_state: u8,
    pub rma_ov_state: u8,
    pub eFWV: u8,
    pub fw1_idx: u8,
    pub fw2_idx: u8,
    pub ota_trap: TrapConfig,
    pub mp_trap: TrapConfig,
    pub key_exp_op: KeyExportOp,
    pub user_ext: [u8; 12],
    pub records: Vec<Record>,
    pub user_bin: Vec<u8>,
}

impl Default for PartTab {
    fn default() -> (r: Self)
        ensures
            r.rma_w_state == 0xFF,
            r.rma_ov_state == 0xFF,
            r.eFWV == 0,
            r.fw1_idx == 0,
            r.fw2_idx == 0,
            r.ota_trap == (TrapConfig { valid: false, level: 0, port: 0, pin: 0 }),
            r.mp_trap == (TrapConfig { valid: false, level: 0, port: 0, pin: 0 }),
            r.key_exp_op == KeyExportOp::Disabled,
            r.user_ext@ == fill(0xFF, 12),
            r.records@.len() == 0,
            r.user_bin@.len() == 0,
    {
        let r = PartTab {
            rma_w_state: 0xFF,
            rma_ov_state: 0xFF,
            eFWV: 0,
            fw1_idx: 0,
            fw2_idx: 0,
            ota_trap: TrapConfig::default(),
            mp_trap: TrapConfig::default(),
            key_exp_op: KeyExportOp::Disabled,
            user_ext: [0xFF; 12],
            records: Vec::new(),
            user_bin: Vec::new(),
        };
        assert(r.user_ext@ =~= fill(0xFF, 12));
        r
    }
}

/// Where record `i` starts in an encoded table.
pub open spec fn record_offset(i: int) -> int {
    32 + 64 * i
}

impl PartTab {
    /// The number of records that the encoded table `s` holds.
    pub open spec fn record_count(s: Seq<u8>) -> int {
        s[4] as int + 1
    }

    /// The length of the user binary that decoding `s` takes (at most 256 bytes).
    pub open spec fn user_len(s: Seq<u8>) -> int {
        if le32(s, 16) > USER_BIN_MAX {
            USER_BIN_MAX as int
        } else {
            le32(s, 16) as int
        }
    }

    /// How many bytes decoding `s` takes.
    pub open spec fn decoded_len(s: Seq<u8>) -> int {
        record_offset(Self::record_count(s)) + Self::user_len(s)
    }

    /// The encoded record `i` of `s`.
    pub open spec fn record_window(s: Seq<u8>, i: int) -> Seq<u8> {
        s.subrange(record_offset(i), record_offset(i) + 64)
    }

    /// A table decodes from the start of `s`.
    pub open spec fn decodable(s: Seq<u8>) -> bool {
        &&& 32 <= s.len()
        &&& KeyExportOp::from_value(s[15]) is Some
        &&& Self::decoded_len(s) <= s.len()
        &&& forall|i: int|
            0 <= i < Self::record_count(s) ==> #[trigger] Record::decodable(
                Self::record_window(s, i),
            )
    }

    /// `self` is what decoding the start of `s` gives.
    pub open spec fn parsed_from(self, s: Seq<u8>) -> bool {
        &&& self.rma_w_state == s[0]
        &&& self.rma_ov_state == s[1]
        &&& self.eFWV == s[2]
        &&& self.fw1_idx == s[5]
        &&& self.fw2_idx == s[6]
        &&& self.ota_trap == TrapConfig::spec_from_u16(le16(s, 10))
        &&& self.mp_trap == TrapConfig::spec_from_u16(le16(s, 12))
        &&& KeyExportOp::from_value(s[15]) == Some(self.key_exp_op)
        &&& self.user_ext@ == s.subrange(20, 32)
        &&& self.records@.len() == Self::record_count(s)
        &&& forall|i: int|
            0 <= i < Self::record_count(s) ==> #[trigger] self.records@[i].parsed_from(
                Self::record_window(s, i),
            )
        &&& self.user_bin@ == s.subrange(
            record_offset(Self::record_count(s)),
            Self::decoded_len(s),
        )
    }

    pub open spec fn header_bytes(self) -> Seq<u8> {
        seq![
            self.rma_w_state,
            self.rma_ov_state,
            self.eFWV,
            0u8,
            (self.records@.len() - 1) as u8,
            self.fw1_idx,
            self.fw2_idx,
        ] + fill(0xFF, 3) + u16_bytes(self.ota_trap.spec_to_u16()) + u16_bytes(
            self.mp_trap.spec_to_u16(),
        ) + fill(0xFF, 1) + seq![self.key_exp_op.value()] + u32_bytes(
            self.user_bin@.len() as u32,
        ) + self.user_ext@
    }

    pub open spec fn encoded(self) -> Seq<u8> {
        self.header_bytes() + records_bytes(self.records@) + self.user_bin@
    }

    /// A table that encodes and reads back: one to 256 records, traps
    /// that fit their bits, and a user binary that the decoder takes whole.
    pub open spec fn valid(self) -> bool {
        &&& 1 <= self.records@.len() <= 256
        &&& self.ota_trap.fits()
        &&& self.mp_trap.fits()
        &&& self.user_bin@.len() <= USER_BIN_MAX
    }

    /// Decodes a table at the cursor: its header, `count + 1` records, and a user
    /// binary of the stored length, cut to 256 bytes.
    #[verifier::rlimit(60)]
    pub fn read_from(r: &mut ByteReader) -> (res: Result<PartTab, Error>)
        requires
            old(r).pos <= old(r).data@.len(),
        ensures
            final(r).data@ == old(r).data@,
            res is Ok <==> Self::decodable(old(r).data@.subrange(old(r).pos as int, old(r).data@.len() as int)),
            res matches Ok(t) ==> t.parsed_from(old(r).data@.subrange(old(r).pos as int, old(r).data@.len() as int))
                && final(r).pos == old(r).pos + Self::decoded_len(old(r).data@.subrange(old(r).pos as int, old(r).data@.len() as int)),
    {
        let ghost data = r.data@;
        let ghost start = r.pos as int;
        let ghost s = data.subrange(start, data.len() as int);
        let w = r.read_vec(32)?;
        let h = w.as_slice();
        assert(h@ =~= s.subrange(0, 32));
        let key_exp_op = KeyExportOp::try_from_u8(h[15])?;
        let n: usize = h[4] as usize + 1;
        let mut records: Vec<Record> = Vec::new();
        let mut i: usize = 0;
        while i < n
            invariant
                r.data@ == data,
                data == old(r).data@,
                start == old(r).pos,
                s == data.subrange(start, data.len() as int),
                0 <= start <= data.len(),
                n == Self::record_count(s),
                i <= n,
                r.pos == start + record_offset(i as int),
                r.pos <= data.len(),
                records@.len() == i,
                forall|j: int|
                    0 <= j < i ==> #[trigger] Record::decodable(Self::record_window(s, j)),
                forall|j: int|
                    0 <= j < i ==> #[trigger] records@[j].parsed_from(Self::record_window(s, j)),
            decreases n - i,
        {
            let ghost pos0 = r.pos as int;
            let rec = match Record::read_from(r) {
                Ok(x) => x,
                Err(e) => {
                    proof {
                        if pos0 + 64 <= data.len() {
                            assert(data.subrange(pos0, pos0 + 64) =~= Self::record_window(
                                s,
                                i as int,
                            ));
                        }
                    }
                    assert(!Self::decodable(s));
                    return Err(e);
                },
            };
            assert(data.subrange(pos0, pos0 + 64) =~= Self::record_window(s, i as int));
            records.push(rec);
            i = i + 1;
        }
        let stored = get_u32(h, 16);
        let ulen = if stored > USER_BIN_MAX {
            USER_BIN_MAX
        } else {
            stored
        };
        assert(le32(h@, 16) == le32(s, 16));
        let user_bin = r.read_vec(ulen as usize)?;
        assert(user_bin@ =~= s.subrange(record_offset(n as int), Self::decoded_len(s)));
        let t = PartTab {
            rma_w_state: h[0],
            rma_ov_state: h[1],
            eFWV: h[2],
            fw1_idx: h[5],
            fw2_idx: h[6],
            ota_trap: TrapConfig::from_u16(get_u16(h, 10)),
            mp_trap: TrapConfig::from_u16(get_u16(h, 12)),
            key_exp_op,
            user_ext: get_array::<12>(h, 20),
            records,
            user_bin,
        };
        assert(t.user_ext@ =~= s.subrange(20, 32));
        Ok(t)
    }

    /// Encodes the table; a table without records is refused and nothing is written.
    #[verifier::rlimit(60)]
    pub fn write_to(&self, out: &mut Vec<u8>) -> (r: Result<(), Error>)
        ensures
            r is Ok <==> self.records@.len() > 0,
            r is Ok ==> final(out)@ == old(out)@ + self.encoded(),
            r is Err ==> r == Err::<(), Error>(Error::InvalidState(StateIssue::EmptyPartitionTable))
                && final(out)@ == old(out)@,
    {
        if self.records.len() == 0 {
            return Err(Error::InvalidState(StateIssue::EmptyPartitionTable));
        }
        out.push(self.rma_w_state);
        out.push(self.rma_ov_state);
        out.push(self.eFWV);
        out.push(0);
        out.push((self.records.len() - 1) as u8);
        out.push(self.fw1_idx);
        out.push(self.fw2_idx);
        write_fill(out, 0xFF, 3);
        write_u16(out, self.ota_trap.to_u16());
        write_u16(out, self.mp_trap.to_u16());
        write_fill(out, 0xFF, 1);
        out.push(self.key_exp_op.as_u8());
        write_u32(out, self.user_bin.len() as u32);
        write_slice(out, self.user_ext.as_slice());
        assert(out@ =~= old(out)@ + self.header_bytes());
        let mut i: usize = 0;
        while i < self.records.len()
            invariant
                i <= self.records@.len(),
                out@ == old(out)@ + self.header_bytes() + records_bytes(
                    self.records@.subrange(0, i as int),
                ),
            decreases self.records@.len() - i,
        {
            self.records[i].write_to(out);
            assert(self.records@.subrange(0, i + 1).drop_last() =~= self.records@.subrange(
                0,
                i as int,
            ));
            i = i + 1;
        }
        assert(self.records@.subrange(0, self.records@.len() as int) =~= self.records@);
        write_slice(out, self.user_bin.as_slice());
        assert(final(out)@ =~= old(out)@ + self.encoded());
        Ok(())
    }
}


/// The records of `rs` whose type is not `t`, in order.
pub open spec fn without_type(rs: Seq<Record>, t: PartitionType) -> Seq<Record>
    decreases rs.len(),
{
    if rs.len() == 0 {
        Seq::empty()
    } else if rs.last().part_type == t {
        without_type(rs.drop_last(), t)
    } else {
        without_type(rs.drop_last(), t).push(rs.last())
    }
}

/// The first record of `rs` whose type is `t`.
pub open spec fn first_record(rs: Seq<Record>, t: PartitionType) -> Option<Record>
    decreases rs.len(),
{
    if rs.len() == 0 {
        None
    } else if rs[0].part_type == t {
        Some(rs[0])
    } else {
        first_record(rs.drop_first(), t)
    }
}

/// The index of the first record of `rs` whose type is `t`, or -1.
pub open spec fn first_index(rs: Seq<Record>, t: PartitionType) -> int
    decreases rs.len(),
{
    if rs.len() == 0 {
        -1
    } else if rs[0].part_type == t {
        0
    } else {
        let k = first_index(rs.drop_first(), t);
        if k < 0 {
            -1
        } else {
            k + 1
        }
    }
}

/// The first record of type `t` stands at `i` when none comes before it.
pub proof fn lemma_first_index(rs: Seq<Record>, t: PartitionType, i: int)
    requires
        0 <= i < rs.len(),
        rs[i].part_type == t,
        forall|j: int| 0 <= j < i ==> rs[j].part_type != t,
    ensures
        first_index(rs, t) == i,
    decreases i,
{
    if i > 0 {
        let tail = rs.drop_first();
        assert forall|j: int| 0 <= j < i - 1 implies tail[j].part_type != t by {
            assert(tail[j] == rs[j + 1]);
        }
        lemma_first_index(tail, t, i - 1);
    }
}

/// Some record of `rs` has type `t`.
pub open spec fn has_type(rs: Seq<Record>, t: PartitionType) -> bool {
    exists|i: int| 0 <= i < rs.len() && #[trigger] rs[i].part_type == t
}

impl PartTab {
    /// Decoding the encoding of a valid table gives it back, and takes all of it.
    #[verifier::rlimit(60)]
    pub proof fn lemma_round_trip(self)
        requires
            self.valid(),
        ensures
            Self::decodable(self.encoded()),
            self.parsed_from(self.encoded()),
            Self::decoded_len(self.encoded()) == self.encoded().len(),
    {
        let e = self.encoded();
        let h = self.header_bytes();
        let n = self.records@.len();
        lemma_records_bytes(self.records@);
        let rb = records_bytes(self.records@);
        assert(h.len() == 32);
        assert(e.subrange(0, 32) =~= h);
        assert(e[4] == (n - 1) as u8);
        assert(Self::record_count(e) == n);
        assert(e.subrange(10, 12) =~= u16_bytes(self.ota_trap.spec_to_u16()));
        assert(e.subrange(12, 14) =~= u16_bytes(self.mp_trap.spec_to_u16()));
        assert(e.subrange(16, 20) =~= u32_bytes(self.user_bin@.len() as u32));
        lemma_le16_window(e, 10, self.ota_trap.spec_to_u16());
        lemma_le16_window(e, 12, self.mp_trap.spec_to_u16());
        lemma_le32_window(e, 16, self.user_bin@.len() as u32);
        self.ota_trap.lemma_round_trip();
        self.mp_trap.lemma_round_trip();
        self.key_exp_op.lemma_value_round_trip();
        assert(e[15] == self.key_exp_op.value());
        assert(e.subrange(20, 32) =~= self.user_ext@);
        assert(Self::user_len(e) == self.user_bin@.len());
        assert forall|i: int| 0 <= i < n implies #[trigger] Self::record_window(e, i)
            == self.records@[i].encoded() by {
            assert(Self::record_window(e, i) =~= rb.subrange(64 * i, 64 * i + 64));
        }
        assert forall|i: int| 0 <= i < n implies #[trigger] Record::decodable(
            Self::record_window(e, i),
        ) by {
            self.records@[i].lemma_round_trip();
        }
        assert forall|i: int| 0 <= i < n implies #[trigger] self.records@[i].parsed_from(
            Self::record_window(e, i),
        ) by {
            self.records@[i].lemma_round_trip();
        }
        assert(e.subrange(record_offset(n as int), Self::decoded_len(e)) =~= self.user_bin@);
        assert(h[0] == self.rma_w_state && h[1] == self.rma_ov_state && h[2] == self.eFWV);
        assert(h[5] == self.fw1_idx && h[6] == self.fw2_idx);
        assert(e[0] == h[0] && e[1] == h[1] && e[2] == h[2] && e[5] == h[5] && e[6] == h[6]);
    }

    pub fn get_records(&self) -> (r: &[Record])
        ensures
            r@ == self.records@,
    {
        self.records.as_slice()
    }

    pub fn get_user_bin(&self) -> (r: &[u8])
        ensures
            r@ == self.user_bin@,
    {
        self.user_bin.as_slice()
    }

    pub fn get_user_ext(&self) -> (r: &[u8])
        ensures
            r@ == self.user_ext@,
    {
        self.user_ext.as_slice()
    }

    /// Appends `user_bin` to the user binary.
    pub fn set_user_bin(&mut self, user_bin: &[u8])
        ensures
            final(self).user_bin@ == old(self).user_bin@ + user_bin@,
            final(self).records@ == old(self).records@,
    {
        let mut i: usize = 0;
        while i < user_bin.len()
            invariant
                i <= user_bin@.len(),
                self.user_bin@ == old(self).user_bin@ + user_bin@.subrange(0, i as int),
                self.records@ == old(self).records@,
            decreases user_bin@.len() - i,
        {
            self.user_bin.push(user_bin[i]);
            i = i + 1;
            assert(self.user_bin@ =~= old(self).user_bin@ + user_bin@.subrange(0, i as int));
        }
        assert(user_bin@.subrange(0, user_bin@.len() as int) =~= user_bin@);
    }

    /// Replaces the 12 bytes of user extension data.
    pub fn set_user_ext(&mut self, user_ext: &[u8])
        requires
            user_ext@.len() == 12,
        ensures
            final(self).user_ext@ == user_ext@,
            final(self).records@ == old(self).records@,
            final(self).user_bin@ == old(self).user_bin@,
    {
        self.user_ext = get_array::<12>(user_ext, 0);
        assert(user_ext@.subrange(0, 12) =~= user_ext@);
    }

    /// Appends a record; a second record of a type already present is the caller's affair.
    pub fn add_record(&mut self, record: Record)
        ensures
            final(self).records@ == old(self).records@.push(record),
            final(self).user_bin@ == old(self).user_bin@,
    {
        self.records.push(record);
    }

    /// Appends a default record of type `part_type` and returns its index.
    pub fn new_record(&mut self, part_type: PartitionType) -> (r: usize)
        ensures
            final(self).records@.len() == old(self).records@.len() + 1,
            final(self).records@.drop_last() == old(self).records@,
            r == old(self).records@.len(),
            final(self).records@[r as int].part_type == part_type,
            final(self).records@[r as int].start_addr == 0,
            final(self).records@[r as int].length == 0,
            !final(self).records@[r as int].dbg_skip,
            final(self).records@[r as int].hash_key is None,
            final(self).user_bin@ == old(self).user_bin@,
    {
        let mut rec = Record::default();
        rec.part_type = part_type;
        let idx = self.records.len();
        self.records.push(rec);
        assert(self.records@.drop_last() =~= old(self).records@);
        idx
    }

    /// The first record of type `part_type`, if any.
    pub fn get_record(&self, part_type: PartitionType) -> (r: Option<&Record>)
        ensures
            r is None <==> first_record(self.records@, part_type) is None,
            r matches Some(x) ==> first_record(self.records@, part_type) == Some(*x),
            r is None <==> !has_type(self.records@, part_type),
    {
        let mut i: usize = 0;
        assert(self.records@.subrange(0, self.records@.len() as int) =~= self.records@);
        while i < self.records.len()
            invariant
                i <= self.records@.len(),
                forall|j: int| 0 <= j < i ==> self.records@[j].part_type != part_type,
                first_record(self.records@, part_type) == first_record(
                    self.records@.subrange(i as int, self.records@.len() as int),
                    part_type,
                ),
            decreases self.records@.len() - i,
        {
            let ghost rest = self.records@.subrange(i as int, self.records@.len() as int);
            assert(rest[0] == self.records@[i as int]);
            assert(rest.drop_first() =~= self.records@.subrange(i + 1, self.records@.len() as int));
            if self.records[i].part_type == part_type {
                return Some(&self.records[i]);
            }
            i = i + 1;
        }
        assert(self.records@.subrange(i as int, self.records@.len() as int) =~= Seq::<Record>::empty());
        None
    }

    /// The index of the first record of type `part_type`, if any.
    pub fn find_record(&self, part_type: PartitionType) -> (r: Option<usize>)
        ensures
            r is None <==> first_record(self.records@, part_type) is None,
            r matches Some(i) ==> i < self.records@.len() && first_record(self.records@, part_type)
                == Some(self.records@[i as int]) && first_index(self.records@, part_type) == i,
    {
        let mut i: usize = 0;
        assert(self.records@.subrange(0, self.records@.len() as int) =~= self.records@);
        while i < self.records.len()
            invariant
                i <= self.records@.len(),
                forall|j: int| 0 <= j < i ==> self.records@[j].part_type != part_type,
                first_record(self.records@, part_type) == first_record(
                    self.records@.subrange(i as int, self.records@.len() as int),
                    part_type,
                ),
            decreases self.records@.len() - i,
        {
            let ghost rest = self.records@.subrange(i as int, self.records@.len() as int);
            assert(rest[0] == self.records@[i as int]);
            assert(rest.drop_first() =~= self.records@.subrange(i + 1, self.records@.len() as int));
            if self.records[i].part_type == part_type {
                proof {
                    lemma_first_index(self.records@, part_type, i as int);
                }
                return Some(i);
            }
            i = i + 1;
        }
        assert(self.records@.subrange(i as int, self.records@.len() as int) =~= Seq::<Record>::empty());
        None
    }

    /// The first record of type `part_type`, to change in place.
    pub fn get_record_mut(&mut self, part_type: PartitionType) -> (r: Option<&mut Record>)
        ensures
            r is None <==> first_record(old(self).records@, part_type) is None,
            r is None ==> final(self).records@ == old(self).records@,
            r is Some ==> first_record(old(self).records@, part_type) == Some(*r->Some_0),
            r is Some ==> final(self).records@ == old(self).records@.update(
                first_index(old(self).records@, part_type),
                *final(r->Some_0),
            ),
            final(self).user_bin@ == old(self).user_bin@,
    {
        match self.find_record(part_type) {
            Some(i) => Some(self.get_record_at_mut(i)),
            None => None,
        }
    }

    /// The record at `index`, to change in place.
    pub fn get_record_at_mut(&mut self, index: usize) -> (r: &mut Record)
        requires
            index < old(self).records@.len(),
        ensures
            *r == old(self).records@[index as int],
            final(self).records@ == old(self).records@.update(index as int, *final(r)),
            final(self).user_bin@ == old(self).user_bin@,
    {
        &mut self.records[index]
    }

    /// Removes every record of type `part_type`, keeping the order of the others.
    pub fn rem_record(&mut self, part_type: PartitionType)
        ensures
            final(self).records@ == without_type(old(self).records@, part_type),
            *final(self) == (PartTab { records: final(self).records, ..*old(self) }),
    {
        let mut kept: Vec<Record> = Vec::new();
        let mut i: usize = 0;
        while i < self.records.len()
            invariant
                i <= self.records@.len(),
                self.records@ == old(self).records@,
                self.user_bin@ == old(self).user_bin@,
                kept@ == without_type(self.records@.subrange(0, i as int), part_type),
            decreases self.records@.len() - i,
        {
            let rec = self.records[i];
            assert(self.records@.subrange(0, i + 1).drop_last() =~= self.records@.subrange(
                0,
                i as int,
            ));
            if rec.part_type != part_type {
                kept.push(rec);
            }
            i = i + 1;
        }
        assert(self.records@.subrange(0, self.records@.len() as int) =~= self.records@);
        self.records = kept;
    }

    pub fn has_record(&self, part_type: PartitionType) -> (r: bool)
        ensures
            r == has_type(self.records@, part_type),
    {
        self.get_record(part_type).is_some()
    }
}


/// The bytes of a partition-table body: the opaque blob, or the encoded table.
pub open spec fn pt_body_bytes(pt: EncryptedOr<PartTab>) -> Seq<u8> {
    match pt {
        EncryptedOr::Encrypted(v) => v@,
        EncryptedOr::Plain(t) => t.encoded(),
    }
}

/// The body can be encoded: a decoded table has records.
pub open spec fn pt_body_ok(pt: EncryptedOr<PartTab>) -> bool {
    match pt {
        EncryptedOr::Encrypted(_) => true,
        EncryptedOr::Plain(t) => t.records@.len() > 0,
    }
}

/// `x` filled up with `0xFF` to `n` bytes (left as it is when not shorter).
pub open spec fn pad_ff(x: Seq<u8>, n: int) -> Seq<u8> {
    if x.len() < n {
        x + fill(0xFF, (n - x.len()) as nat)
    } else {
        x
    }
}

/// Appends the body of a partition table.
fn write_pt_body(pt: &EncryptedOr<PartTab>, out: &mut Vec<u8>) -> (r: Result<(), Error>)
    ensures
        r is Ok <==> pt_body_ok(*pt),
        r is Ok ==> final(out)@ == old(out)@ + pt_body_bytes(*pt),
        r is Err ==> r == Err::<(), Error>(Error::InvalidState(StateIssue::EmptyPartitionTable)),
{
    match pt {
        EncryptedOr::Encrypted(v) => {
            write_slice(out, v.as_slice());
            Ok(())
        },
        EncryptedOr::Plain(t) => t.write_to(out),
    }
}

/// Appends the body of a partition table filled up with `0xFF` to `size` bytes.
fn write_pt_body_padded(pt: &EncryptedOr<PartTab>, size: u32, out: &mut Vec<u8>) -> (r: Result<
    (),
    Error,
>)
    ensures
        r is Ok <==> pt_body_ok(*pt),
        r is Ok ==> final(out)@ == old(out)@ + pad_ff(pt_body_bytes(*pt), size as int),
        r is Err ==> r == Err::<(), Error>(Error::InvalidState(StateIssue::EmptyPartitionTable)),
{
    let mut buf: Vec<u8> = Vec::new();
    write_pt_body(pt, &mut buf)?;
    assert(buf@ =~= pt_body_bytes(*pt));
    if buf.len() < size as usize {
        let gap = size as usize - buf.len();
        write_fill(&mut buf, 0xFF, gap as u64);
    }
    write_slice(out, buf.as_slice());
    Ok(())
}

/// The signed image that carries the partition table: key block, header, body
/// (opaque when the header says it is encrypted) and an HMAC-SHA256 signature.
#[derive(Debug)]
pub struct PartitionTableImage {
    pub keyblock: KeyBlock,
    pub header: ImageHeader,
    pub pt: EncryptedOr<PartTab>,
    pub hash: [u8; 32],
}

impl Default for PartitionTableImage {
    fn default() -> (r: Self)
        ensures
            r.keyblock.enc_pubkey@ == fill(0xFF, 32),
            r.keyblock.hash_pubkey@ == fill(0xFF, 32),
            r.header.segment_size == 0,
            r.header.img_type == crate::enums::ImageType::Parttab,
            !r.header.is_encrypt,
            r.pt matches EncryptedOr::Plain(t) && t.records@.len() == 0 && t.user_bin@.len() == 0,
            r.hash@ == fill(0xFF, 32),
    {
        let r = PartitionTableImage {
            keyblock: KeyBlock::default(),
            header: ImageHeader::default(),
            pt: EncryptedOr::Plain(PartTab::default()),
            hash: [0xFF; 32],
        };
        assert(r.hash@ =~= fill(0xFF, 32));
        r
    }
}

/// Where the body of a partition-table image that starts at `p` in `d` ends: after
/// the segment, or after the decoded table if that runs past it.
pub open spec fn pti_body_end(d: Seq<u8>, p: int) -> int {
    let hw = d.subrange(p + 64, p + 160);
    let seg = le32(hw, 0) as int;
    if hw[9] != 0 {
        p + 160 + seg
    } else {
        let t = PartTab::decoded_len(d.subrange(p + 160, d.len() as int));
        if t > seg {
            p + 160 + t
        } else {
            p + 160 + seg
        }
    }
}

/// The body of a partition-table image whose header stands at `p + 64` in `d`
/// decodes: the opaque segment is there, or the table decodes.
pub open spec fn pti_body_ok(d: Seq<u8>, p: int) -> bool {
    let hw = d.subrange(p + 64, p + 160);
    if hw[9] != 0 {
        p + 160 + le32(hw, 0) <= d.len()
    } else {
        PartTab::decodable(d.subrange(p + 160, d.len() as int))
    }
}

/// A partition-table image decodes at `p` in `d`.
pub open spec fn pti_decodable(d: Seq<u8>, p: int) -> bool {
    let hw = d.subrange(p + 64, p + 160);
    &&& p + 160 <= d.len()
    &&& ImageHeader::decodable(hw)
    &&& if hw[9] != 0 {
        p + 160 + le32(hw, 0) <= d.len()
    } else {
        PartTab::decodable(d.subrange(p + 160, d.len() as int))
    }
    &&& pti_body_end(d, p) + 32 <= d.len()
}

impl PartitionTableImage {
    /// The unaligned size of the body and its base.
    pub open spec fn raw_size(&self) -> int {
        match self.pt {
            EncryptedOr::Encrypted(v) => v@.len() as int,
            EncryptedOr::Plain(t) => (0x20 + (t.records@.len() + 1) * 64 + t.user_bin@.len()) as int,
        }
    }

    /// The bytes that the signature covers: key block, header and body filled up to
    /// the computed segment size.
    pub open spec fn signed_bytes(&self) -> Seq<u8> {
        self.keyblock.encoded() + self.header.encoded() + pad_ff(
            pt_body_bytes(self.pt),
            self.spec_segment_size() as int,
        )
    }

    pub open spec fn encoded(&self) -> Seq<u8> {
        self.keyblock.encoded() + self.header.encoded() + pad_ff(
            pt_body_bytes(self.pt),
            self.header.segment_size as int,
        ) + self.hash@
    }

    /// `self` is what decoding at `p` in `d` gives.
    pub open spec fn parsed_from(&self, d: Seq<u8>, p: int) -> bool {
        let seg = self.header.segment_size as int;
        let end = pti_body_end(d, p);
        &&& self.keyblock.parsed_from(d.subrange(p, p + 64))
        &&& self.header.parsed_from(d.subrange(p + 64, p + 160))
        &&& if self.header.is_encrypt {
            self.pt matches EncryptedOr::Encrypted(v) && v@ == d.subrange(p + 160, p + 160 + seg)
        } else {
            self.pt matches EncryptedOr::Plain(t) && t.parsed_from(
                d.subrange(p + 160, d.len() as int),
            )
        }
        &&& self.hash@ == d.subrange(end, end + 32)
    }

    /// Decodes a partition-table image at the cursor. A failure in the key block,
    /// the header or the body is reported as a malformed layer.
    #[verifier::rlimit(60)]
    pub fn read_from(r: &mut ByteReader) -> (res: Result<PartitionTableImage, Error>)
        requires
            old(r).pos <= old(r).data@.len(),
        ensures
            final(r).data@ == old(r).data@,
            res is Ok <==> pti_decodable(old(r).data@, old(r).pos as int),
            res matches Ok(x) ==> x.parsed_from(old(r).data@, old(r).pos as int) && final(r).pos
                == pti_body_end(old(r).data@, old(r).pos as int) + 32,
            !old(r).has(64) ==> res == Err::<PartitionTableImage, Error>(
                Error::Malformed(ImageLayer::KeyBlock, crate::error::DecodeCause::UnexpectedEof),
            ),
            old(r).has(64) && !old(r).has(160) ==> res == Err::<PartitionTableImage, Error>(
                Error::Malformed(ImageLayer::Header, crate::error::DecodeCause::UnexpectedEof),
            ),
            old(r).has(160) && !ImageHeader::decodable(old(r).data@.subrange(old(r).pos + 64, old(r).pos + 160)) ==> res
                == Err::<PartitionTableImage, Error>(
                Error::Malformed(
                    ImageLayer::Header,
                    crate::error::DecodeCause::UnknownEnumValue(
                        EnumKind::ImageType,
                        old(r).data@[old(r).pos + 72] as u32,
                    ),
                ),
            ),
            old(r).has(160) && ImageHeader::decodable(old(r).data@.subrange(old(r).pos + 64, old(r).pos + 160))
                && !pti_body_ok(old(r).data@, old(r).pos as int) ==> res matches Err(
                Error::Malformed(ImageLayer::Body, _),
            ),
    {
        let ghost d = r.data@;
        let ghost p = r.pos as int;
        let keyblock = match KeyBlock::read_from(r) {
            Ok(k) => k,
            Err(e) => return Err(Error::malformed(ImageLayer::KeyBlock, e)),
        };
        let header = match ImageHeader::read_from(r) {
            Ok(h) => h,
            Err(e) => return Err(Error::malformed(ImageLayer::Header, e)),
        };
        let ghost hw = d.subrange(p + 64, p + 160);
        assert(hw[9] != 0 <==> header.is_encrypt);
        let start = r.pos;
        let seg = header.segment_size as usize;
        let pt = if header.is_encrypt {
            match r.read_vec(seg) {
                Ok(v) => EncryptedOr::Encrypted(v),
                Err(e) => return Err(Error::malformed(ImageLayer::Body, e)),
            }
        } else {
            match PartTab::read_from(r) {
                Ok(t) => EncryptedOr::Plain(t),
                Err(e) => return Err(Error::malformed(ImageLayer::Body, e)),
            }
        };
        let cur = r.pos;
        let used = cur - start;
        let gap = if used < seg {
            seg - used
        } else {
            0
        };
        r.skip(gap)?;
        assert(r.pos == pti_body_end(d, p));
        let hash = r.read_array::<32>()?;
        Ok(PartitionTableImage { keyblock, header, pt, hash })
    }

    /// Encodes the image: key block, header, the body filled with `0xFF` up to the
    /// stored segment size, and the signature. A table without records is refused
    /// and nothing is written.
    pub fn write_to(&self, out: &mut Vec<u8>) -> (r: Result<(), Error>)
        ensures
            r is Ok <==> pt_body_ok(self.pt),
            r is Ok ==> final(out)@ == old(out)@ + self.encoded(),
            r is Err ==> r == Err::<(), Error>(Error::InvalidState(StateIssue::EmptyPartitionTable))
                && final(out)@ == old(out)@,
    {
        let mut body: Vec<u8> = Vec::new();
        write_pt_body_padded(&self.pt, self.header.segment_size, &mut body)?;
        self.keyblock.write_to(out);
        self.header.write_to(out);
        write_slice(out, body.as_slice());
        write_slice(out, self.hash.as_slice());
        assert(final(out)@ =~= old(out)@ + self.encoded());
        Ok(())
    }

    pub fn get_hash(&self) -> (r: &[u8; 32])
        ensures
            *r == self.hash,
    {
        &self.hash
    }

    /// The HMAC-SHA256, under `key`, of the image as it stands at the cursor: key
    /// block, header and the segment that the header announces.
    pub fn create_signature(&self, r: &mut ByteReader, key: &[u8]) -> (res: Result<Vec<u8>, Error>)
        requires
            key@.len() <= MAX_HMAC_KEY_LEN,
        ensures
            final(r).data@ == old(r).data@,
            res matches Ok(sig) ==> old(r).has(160 + self.header.segment_size) && sig@
                == hmac_sha256_of(key@, old(r).window(160 + self.header.segment_size)),
            !old(r).has(160 + self.header.segment_size) ==> res == Err::<Vec<u8>, Error>(
                Error::UnexpectedEof,
            ),
            old(r).has(160 + self.header.segment_size) ==> res is Ok || res == Err::<Vec<u8>, Error>(
                Error::Crypto,
            ),
    {
        let seg = self.header.segment_size as usize;
        if seg > r.len() || r.len() - seg < 160 {
            return Err(Error::UnexpectedEof);
        }
        let n = 160 + seg;
        let buffer = r.read_vec(n)?;
        let sig = hmac_sha256_array(key, buffer.as_slice())?;
        Ok(crate::hash::array_to_vec(&sig))
    }

    /// Tells whether the computed segment size fits in a `u32`.
    pub fn check_size_fits(&self) -> (r: bool)
        ensures
            r == self.size_fits(),
    {
        match &self.pt {
            EncryptedOr::Encrypted(v) => v.len() <= 0xFFFF_FFFF - 0x20,
            EncryptedOr::Plain(t) => {
                if t.records.len() >= 0x400_0000 || t.user_bin.len() > 0xFFFF_FFFF {
                    false
                } else {
                    let raw: u64 = 0x20 + (t.records.len() as u64 + 1) * 64 + t.user_bin.len() as u64;
                    raw + 0x20 <= 0xFFFF_FFFF
                }
            },
        }
    }
}

impl AsImage for PartitionTableImage {
    open spec fn size_fits(&self) -> bool {
        self.raw_size() + 0x20 <= u32::MAX
    }

    /// The body size rounded up past the next multiple of 0x20: an aligned size
    /// still gains a full 0x20.
    open spec fn spec_segment_size(&self) -> u32 {
        (self.raw_size() + (0x20 - self.raw_size() % 0x20)) as u32
    }

    open spec fn stored_segment_size(&self) -> u32 {
        self.header.segment_size
    }

    open spec fn stored_signature(&self) -> Seq<u8> {
        self.hash@
    }

    open spec fn signature_ready(&self, key: Option<Seq<u8>>) -> bool {
        key is Some && self.size_fits() && pt_body_ok(self.pt)
    }

    open spec fn signature_of(&self, key: Option<Seq<u8>>) -> Seq<u8> {
        match key {
            Some(k) => hmac_sha256_of(k, self.signed_bytes()),
            None => Seq::empty(),
        }
    }

    open spec fn signature_error(&self, key: Option<Seq<u8>>) -> Error {
        if key is None {
            Error::InvalidState(StateIssue::MissingKey)
        } else if !self.size_fits() {
            Error::InvalidState(StateIssue::SizeOverflow)
        } else {
            Error::InvalidState(StateIssue::EmptyPartitionTable)
        }
    }

    open spec fn same_but_signature(&self, other: &Self) -> bool {
        self.keyblock == other.keyblock && self.header == other.header && self.pt == other.pt
    }

    open spec fn same_but_size(&self, other: &Self) -> bool {
        &&& self.keyblock == other.keyblock
        &&& self.header == (ImageHeader { segment_size: self.header.segment_size, ..other.header })
        &&& self.pt == other.pt
        &&& self.hash == other.hash
    }

    fn build_segment_size(&self) -> (r: u32) {
        let new_size: u64 = match &self.pt {
            EncryptedOr::Encrypted(v) => v.len() as u64,
            EncryptedOr::Plain(t) => 0x20 + (t.records.len() as u64 + 1) * 64
                + t.user_bin.len() as u64,
        };
        (new_size + (0x20 - new_size % 0x20)) as u32
    }

    fn set_segment_size(&mut self, size: u32) {
        self.header.segment_size = size;
    }

    /// HMAC-SHA256 of key block, header and body filled up with `0xFF` to the
    /// computed segment size. The key is mandatory.
    fn build_signature(&self, key: Option<&[u8]>) -> (r: Result<Vec<u8>, Error>) {
        let k = match key {
            Some(k) => k,
            None => return Err(Error::InvalidState(StateIssue::MissingKey)),
        };
        if !self.check_size_fits() {
            return Err(Error::InvalidState(StateIssue::SizeOverflow));
        }
        let size = self.build_segment_size();
        let mut buffer: Vec<u8> = Vec::new();
        self.keyblock.write_to(&mut buffer);
        self.header.write_to(&mut buffer);
        write_pt_body_padded(&self.pt, size, &mut buffer)?;
        assert(buffer@ =~= self.signed_bytes());
        let sig = hmac_sha256_array(k, buffer.as_slice())?;
        Ok(crate::hash::array_to_vec(&sig))
    }

    fn set_signature(&mut self, signature: &[u8]) {
        self.hash = get_array::<32>(signature, 0);
        assert(signature@.subrange(0, 32) =~= signature@);
    }
}


/// The segment size of a partition-table image is a multiple of 0x20 and always
/// exceeds the unaligned size of its body, by a full 0x20 when that size is
/// already aligned.
pub proof fn lemma_segment_size_alignment(img: &PartitionTableImage)
    requires
        img.size_fits(),
    ensures
        img.spec_segment_size() % 0x20 == 0,
        img.spec_segment_size() > img.raw_size(),
        img.raw_size() % 0x20 == 0 ==> img.spec_segment_size() == img.raw_size() + 0x20,
{
}

/// The segment size of a partition-table image depends on its body alone: the
/// header (where a stored size lives) and the signature do not change it.
pub proof fn lemma_segment_size_depends_on_body(a: &PartitionTableImage, b: &PartitionTableImage)
    requires
        a.raw_size() == b.raw_size(),
    ensures
        a.spec_segment_size() == b.spec_segment_size(),
        a.size_fits() == b.size_fits(),
{
}

/// A table with one record stores a record count of zero.
pub proof fn lemma_single_record_count(t: PartTab)
    requires
        t.records@.len() == 1,
    ensures
        t.encoded()[4] == 0,
{
    assert(t.encoded()[4] == t.header_bytes()[4]);
}

/// The signed bytes of two partition-table images that differ only in the start
/// address of one record differ: the signature covers every record.
#[verifier::rlimit(80)]
pub proof fn lemma_signed_bytes_cover_records(
    a: &PartitionTableImage,
    b: &PartitionTableImage,
    i: int,
)
    requires
        a.keyblock == b.keyblock,
        a.header == b.header,
        a.pt matches EncryptedOr::Plain(ta) && b.pt matches EncryptedOr::Plain(tb) && ta.records@.len()
            == tb.records@.len() && ta.user_bin@.len() == tb.user_bin@.len() && 0 <= i
            < ta.records@.len() && ta.records@[i].start_addr != tb.records@[i].start_addr,
    ensures
        a.signed_bytes() != b.signed_bytes(),
{
    let ta = a.pt->Plain_0;
    let tb = b.pt->Plain_0;
    let ea = ta.encoded();
    let eb = tb.encoded();
    lemma_records_bytes(ta.records@);
    lemma_records_bytes(tb.records@);
    let off = 32 + 64 * i;
    assert(ta.header_bytes().len() == 32);
    assert(tb.header_bytes().len() == 32);
    assert(ea.subrange(off, off + 4) =~= records_bytes(ta.records@).subrange(64 * i, 64 * i + 64).subrange(0, 4));
    assert(eb.subrange(off, off + 4) =~= records_bytes(tb.records@).subrange(64 * i, 64 * i + 64).subrange(0, 4));
    assert(ta.records@[i].encoded().subrange(0, 4) =~= u32_bytes(ta.records@[i].start_addr));
    assert(tb.records@[i].encoded().subrange(0, 4) =~= u32_bytes(tb.records@[i].start_addr));
    lemma_le32_window(ea, off, ta.records@[i].start_addr);
    lemma_le32_window(eb, off, tb.records@[i].start_addr);
    let sa = a.signed_bytes();
    let sb = b.signed_bytes();
    let pre = a.keyblock.encoded() + a.header.encoded();
    assert(a.spec_segment_size() == b.spec_segment_size());
    let pa = pad_ff(ea, a.spec_segment_size() as int);
    let pb = pad_ff(eb, b.spec_segment_size() as int);
    assert(pre.len() == 160);
    if sa == sb {
        assert(sa.subrange(160 + off, 164 + off) =~= ea.subrange(off, off + 4));
        assert(sb.subrange(160 + off, 164 + off) =~= eb.subrange(off, off + 4));
        lemma_le32_round_trip(ta.records@[i].start_addr);
        lemma_le32_round_trip(tb.records@[i].start_addr);
        assert(u32_bytes(ta.records@[i].start_addr) == u32_bytes(tb.records@[i].start_addr));
        assert(false);
    }
}


/// What follows a table does not change how it decodes.
#[verifier::rlimit(60)]
pub proof fn lemma_part_tab_extend(t: PartTab, s: Seq<u8>, extra: Seq<u8>)
    requires
        PartTab::decodable(s),
        t.parsed_from(s),
    ensures
        PartTab::decodable(s + extra),
        t.parsed_from(s + extra),
        PartTab::decoded_len(s + extra) == PartTab::decoded_len(s),
{
    let s2 = s + extra;
    let n = PartTab::record_count(s);
    assert(s2.subrange(0, 32) =~= s.subrange(0, 32));
    assert(s2[4] == s[4] && s2[15] == s[15]);
    assert(le32(s2, 16) == le32(s, 16));
    assert(le16(s2, 10) == le16(s, 10) && le16(s2, 12) == le16(s, 12));
    assert(s2.subrange(20, 32) =~= s.subrange(20, 32));
    assert forall|i: int| 0 <= i < n implies #[trigger] PartTab::record_window(s2, i)
        == PartTab::record_window(s, i) by {
        assert(PartTab::record_window(s2, i) =~= PartTab::record_window(s, i));
    }
    assert forall|i: int| 0 <= i < PartTab::record_count(s2) implies #[trigger] Record::decodable(
        PartTab::record_window(s2, i),
    ) by {
        assert(PartTab::record_window(s2, i) == PartTab::record_window(s, i));
    }
    assert forall|i: int| 0 <= i < PartTab::record_count(s2) implies #[trigger] t.records@[i].parsed_from(
        PartTab::record_window(s2, i),
    ) by {
        assert(PartTab::record_window(s2, i) == PartTab::record_window(s, i));
    }
    assert(s2.subrange(record_offset(n), PartTab::decoded_len(s)) =~= s.subrange(
        record_offset(n),
        PartTab::decoded_len(s),
    ));
}

/// Decoding the encoding of a partition-table image with a valid, unencrypted table
/// gives it back, and takes all of it.
#[verifier::rlimit(60)]
pub proof fn lemma_table_image_round_trip(img: &PartitionTableImage)
    requires
        !img.header.is_encrypt,
        img.pt matches EncryptedOr::Plain(t) && t.valid(),
    ensures
        pti_decodable(img.encoded(), 0),
        img.parsed_from(img.encoded(), 0),
        pti_body_end(img.encoded(), 0) + 32 == img.encoded().len(),
{
    let t = img.pt->Plain_0;
    let e = img.encoded();
    let kb = img.keyblock.encoded();
    let hd = img.header.encoded();
    let te = t.encoded();
    let seg = img.header.segment_size as int;
    let body = pad_ff(te, seg);
    img.keyblock.lemma_round_trip();
    img.header.lemma_round_trip();
    t.lemma_round_trip();
    assert(e.subrange(0, 64) =~= kb);
    assert(e.subrange(64, 160) =~= hd);
    assert(hd[9] == 0);
    let rest = e.subrange(160, e.len() as int);
    let extra = if te.len() < seg {
        fill(0xFF, (seg - te.len()) as nat) + img.hash@
    } else {
        img.hash@
    };
    assert(rest =~= te + extra);
    lemma_part_tab_extend(t, te, extra);
    assert(le32(e.subrange(64, 160), 0) == img.header.segment_size);
    assert(pti_body_end(e, 0) == 160 + body.len());
    assert(e.subrange(160 + body.len() as int, 160 + body.len() as int + 32) =~= img.hash@);
}


/// Decoding the encoding of a partition-table image with an encrypted body of
/// exactly the stored segment size gives it back, and takes all of it.
pub proof fn lemma_encrypted_table_image_round_trip(img: &PartitionTableImage)
    requires
        img.header.is_encrypt,
        img.pt matches EncryptedOr::Encrypted(v) && v@.len() == img.header.segment_size,
    ensures
        pti_decodable(img.encoded(), 0),
        img.parsed_from(img.encoded(), 0),
        pti_body_end(img.encoded(), 0) + 32 == img.encoded().len(),
{
    let v = img.pt->Encrypted_0;
    let e = img.encoded();
    let seg = img.header.segment_size as int;
    img.keyblock.lemma_round_trip();
    img.header.lemma_round_trip();
    assert(e.subrange(0, 64) =~= img.keyblock.encoded());
    assert(e.subrange(64, 160) =~= img.header.encoded());
    assert(img.header.encoded()[9] == 1);
    assert(le32(e.subrange(64, 160), 0) == img.header.segment_size);
    assert(e.subrange(160, 160 + seg) =~= v@);
    assert(e.subrange(160 + seg, 192 + seg) =~= img.hash@);
}

} // verus!

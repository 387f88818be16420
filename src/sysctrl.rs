//! The system data block: OTA2 addressing, boot trap, SPI and flash settings and
//! calibration blobs, in a fixed 0x1000-byte layout.
use vstd::prelude::*;

use crate::bytes::{
    fill, get_optional, get_u32, le32, lemma_le32_window, lemma_sentinel_round_trip,
    canonical_opt, opt_view, sentinel_bytes, sentinel_opt, u32_bytes, write_fill,
    write_optional, write_u32, ByteReader,
};
use crate::error::Error;
use crate::header::BinarySize;

verus! {

pub const SYSTEM_DATA_SIZE: usize = 0x1000;

/// The pin that forces the boot loader to keep the old image: bits 0-4 pin,
/// bit 5 port, bit 7 active.
#[derive(Debug, Clone, Copy, PartialEq, Eq, Structural)]
pub struct ForceOldImage {
    pub pin: u8,
    pub port: u8,
    pub active: bool,
}

impl Default for ForceOldImage {
    fn default() -> (r: Self)
        ensures
            r == (ForceOldImage { pin: 0, port: 0, active: false }),
    {
        ForceOldImage { pin: 0, port: 0, active: false }
    }
}

impl ForceOldImage {
    pub fn new(pin: u8, port: u8, active: bool) -> (r: Self)
        ensures
            r == (ForceOldImage { pin, port, active }),
    {
        ForceOldImage { pin, port, active }
    }

    pub fn pin(&self) -> (r: u8)
        ensures
            r == self.pin,
    {
        self.pin
    }

    pub fn port(&self) -> (r: u8)
        ensures
            r == self.port,
    {
        self.port
    }

    pub fn is_active(&self) -> (r: bool)
        ensures
            r == self.active,
    {
        self.active
    }

    /// The fields fit their bit widths.
    pub open spec fn fits(self) -> bool {
        self.pin <= 31 && self.port <= 1
    }

    pub open spec fn spec_from_u32(v: u32) -> ForceOldImage {
        ForceOldImage {
            pin: (v & 0x1Fu32) as u8,
            port: ((v >> 5u32) & 1u32) as u8,
            active: ((v >> 7u32) & 1u32) == 1u32,
        }
    }

    pub open spec fn spec_to_u32(self) -> u32 {
        (self.pin as u32) | ((self.port as u32) << 5u32) | ((if self.active {
            1u32
        } else {
            0u32
        }) << 7u32)
    }

    pub fn from_u32(v: u32) -> (r: ForceOldImage)
        ensures
            r == Self::spec_from_u32(v),
    {
        ForceOldImage {
            pin: (v & 0x1Fu32) as u8,
            port: ((v >> 5u32) & 1u32) as u8,
            active: ((v >> 7u32) & 1u32) == 1u32,
        }
    }

    pub fn to_u32(&self) -> (r: u32)
        ensures
            r == self.spec_to_u32(),
    {
        (self.pin as u32) | ((self.port as u32) << 5u32) | ((if self.active {
            1u32
        } else {
            0u32
        }) << 7u32)
    }

    /// Unpacking what was packed gives back a trap whose fields fit their bits.
    pub proof fn lemma_round_trip(self)
        requires
            self.fits(),
        ensures
            Self::spec_from_u32(self.spec_to_u32()) == self,
    {
        let n = self.pin as u32;
        let p = self.port as u32;
        let b: u32 = if self.active {
            1
        } else {
            0
        };
        assert(n <= 31 && p <= 1 && b <= 1 ==> {
            let v = n | (p << 5u32) | (b << 7u32);
            &&& (v & 0x1Fu32) == n
            &&& ((v >> 5u32) & 1u32) == p
            &&& ((v >> 7u32) & 1u32) == b
        }) by (bit_vector);
    }
}

/// The SPI settings: I/O mode in the low half, speed in the high half.
#[derive(Debug, Clone, Copy, PartialEq, Eq, Structural)]
pub struct SpiConfig {
    pub io_mode: u16,
    pub io_speed: u16,
}

/// The flash chip: its ID in the low half, its size code in the high half.
#[derive(Debug, Clone, Copy, PartialEq, Eq, Structural)]
pub struct FlashInfo {
    pub flash_id: u16,
    pub flash_size: u16,
}

/// The two halves of a word, low half first.
pub open spec fn halves(v: u32) -> (u16, u16) {
    ((v & 0xFFFFu32) as u16, ((v >> 16u32) & 0xFFFFu32) as u16)
}

/// The word made of a low and a high half.
pub open spec fn join_halves(lo: u16, hi: u16) -> u32 {
    (lo as u32) | ((hi as u32) << 16u32)
}

pub proof fn lemma_halves(lo: u16, hi: u16)
    ensures
        halves(join_halves(lo, hi)) == (lo, hi),
{
    let l = lo as u32;
    let h = hi as u32;
    assert(l <= 0xFFFF && h <= 0xFFFF ==> ((l | (h << 16u32)) & 0xFFFFu32) == l && (((l | (h
        << 16u32)) >> 16u32) & 0xFFFFu32) == h) by (bit_vector);
}

impl SpiConfig {
    pub fn from_u32(v: u32) -> (r: SpiConfig)
        ensures
            (r.io_mode, r.io_speed) == halves(v),
    {
        SpiConfig { io_mode: (v & 0xFFFF) as u16, io_speed: ((v >> 16u32) & 0xFFFF) as u16 }
    }

    pub fn to_u32(&self) -> (r: u32)
        ensures
            r == join_halves(self.io_mode, self.io_speed),
    {
        (self.io_mode as u32) | ((self.io_speed as u32) << 16u32)
    }
}

impl FlashInfo {
    pub fn from_u32(v: u32) -> (r: FlashInfo)
        ensures
            (r.flash_id, r.flash_size) == halves(v),
    {
        FlashInfo { flash_id: (v & 0xFFFF) as u16, flash_size: ((v >> 16u32) & 0xFFFF) as u16 }
    }

    pub fn to_u32(&self) -> (r: u32)
        ensures
            r == join_halves(self.flash_id, self.flash_size),
    {
        (self.flash_id as u32) | ((self.flash_size as u32) << 16u32)
    }
}

/// A `u32` that is absent when it holds the sentinel `0xFFFF_FFFF`.
pub open spec fn sentinel_u32(v: u32) -> Option<u32> {
    if v == 0xFFFF_FFFF {
        None
    } else {
        Some(v)
    }
}

/// The stored form of an optional `u32`.
pub open spec fn u32_or_sentinel(o: Option<u32>) -> u32 {
    match o {
        Some(v) => v,
        None => 0xFFFF_FFFF,
    }
}

/// The system data block.
#[derive(Debug, Clone, Copy)]
pub struct SystemData {
    pub ota2_addr: Option<u32>,
    pub ota2_size: Option<u32>,
    pub old_img_trap: ForceOldImage,
    pub spi_cfg: SpiConfig,
    pub flash_info: FlashInfo,
    pub ulog_baud: u32,
    pub spic_calibcfg: Option<[u8; 0x30]>,
    pub bt_parameter_data: Option<[u8; 0x20]>,
}

impl BinarySize for SystemData {
    open spec fn spec_binary_size() -> nat {
        0x1000
    }

    fn binary_size() -> (r: usize) {
        SYSTEM_DATA_SIZE
    }
}

impl Default for SystemData {
    fn default() -> (r: Self)
        ensures
            r.ota2_addr is None,
            r.ota2_size is None,
            r.old_img_trap == (ForceOldImage { pin: 0, port: 0, active: false }),
            r.spi_cfg == (SpiConfig { io_mode: 0, io_speed: 0 }),
            r.flash_info == (FlashInfo { flash_id: 0, flash_size: 0 }),
            r.ulog_baud == 0xFFFF_FFFF,
            r.spic_calibcfg is None,
            r.bt_parameter_data is None,
    {
        SystemData {
            ota2_addr: None,
            ota2_size: None,
            old_img_trap: ForceOldImage::default(),
            spi_cfg: SpiConfig { io_mode: 0, io_speed: 0 },
            flash_info: FlashInfo { flash_id: 0, flash_size: 0 },
            ulog_baud: 0xFFFF_FFFF,
            spic_calibcfg: None,
            bt_parameter_data: None,
        }
    }
}

impl SystemData {
    pub open spec fn encoded(self) -> Seq<u8> {
        u32_bytes(u32_or_sentinel(self.ota2_size)) + u32_bytes(u32_or_sentinel(self.ota2_addr))
            + u32_bytes(self.old_img_trap.spec_to_u32()) + fill(0xFF, 20) + u32_bytes(
            join_halves(self.spi_cfg.io_mode, self.spi_cfg.io_speed),
        ) + u32_bytes(join_halves(self.flash_info.flash_id, self.flash_info.flash_size)) + fill(
            0xFF,
            8,
        ) + u32_bytes(self.ulog_baud) + fill(0xFF, 12) + sentinel_bytes(self.spic_calibcfg)
            + fill(0xFF, 0xf70) + sentinel_bytes(self.bt_parameter_data)
    }

    /// `self` is what decoding the 0x1000 bytes `s` gives.
    pub open spec fn parsed_from(self, s: Seq<u8>) -> bool {
        &&& self.ota2_size == sentinel_u32(le32(s, 0))
        &&& self.ota2_addr == sentinel_u32(le32(s, 4))
        &&& self.old_img_trap == ForceOldImage::spec_from_u32(le32(s, 8))
        &&& (self.spi_cfg.io_mode, self.spi_cfg.io_speed) == halves(le32(s, 32))
        &&& (self.flash_info.flash_id, self.flash_info.flash_size) == halves(le32(s, 36))
        &&& self.ulog_baud == le32(s, 48)
        &&& opt_view(self.spic_calibcfg) == sentinel_opt(s.subrange(64, 112))
        &&& opt_view(self.bt_parameter_data) == sentinel_opt(s.subrange(0xFE0, 0x1000))
    }

    /// A block that reads back as written: optional words are not the sentinel,
    /// the trap fits its bits, and present blobs are not all sentinel bytes.
    pub open spec fn valid(self) -> bool {
        &&& self.ota2_size != Some(0xFFFF_FFFFu32)
        &&& self.ota2_addr != Some(0xFFFF_FFFFu32)
        &&& self.old_img_trap.fits()
        &&& canonical_opt(self.spic_calibcfg)
        &&& canonical_opt(self.bt_parameter_data)
    }

    pub fn read_from(r: &mut ByteReader) -> (res: Result<SystemData, Error>)
        ensures
            final(r).data@ == old(r).data@,
            res is Ok <==> old(r).has(0x1000),
            res matches Ok(x) ==> x.parsed_from(old(r).window(0x1000)) && final(r).pos == old(
                r,
            ).pos + 0x1000,
            res is Err ==> res == Err::<SystemData, Error>(Error::UnexpectedEof),
    {
        let w = r.read_vec(0x1000)?;
        let s = w.as_slice();
        let size = get_u32(s, 0);
        let addr = get_u32(s, 4);
        Ok(
            SystemData {
                ota2_size: if size == 0xFFFF_FFFF {
                    None
                } else {
                    Some(size)
                },
                ota2_addr: if addr == 0xFFFF_FFFF {
                    None
                } else {
                    Some(addr)
                },
                old_img_trap: ForceOldImage::from_u32(get_u32(s, 8)),
                spi_cfg: SpiConfig::from_u32(get_u32(s, 32)),
                flash_info: FlashInfo::from_u32(get_u32(s, 36)),
                ulog_baud: get_u32(s, 48),
                spic_calibcfg: get_optional::<0x30>(s, 64),
                bt_parameter_data: get_optional::<0x20>(s, 0xFE0),
            },
        )
    }

    #[verifier::rlimit(60)]
    pub fn write_to(&self, out: &mut Vec<u8>)
        ensures
            final(out)@ == old(out)@ + self.encoded(),
    {
        write_u32(
            out,
            match self.ota2_size {
                Some(v) => v,
                None => 0xFFFF_FFFF,
            },
        );
        write_u32(
            out,
            match self.ota2_addr {
                Some(v) => v,
                None => 0xFFFF_FFFF,
            },
        );
        write_u32(out, self.old_img_trap.to_u32());
        write_fill(out, 0xFF, 20);
        write_u32(out, self.spi_cfg.to_u32());
        write_u32(out, self.flash_info.to_u32());
        write_fill(out, 0xFF, 8);
        write_u32(out, self.ulog_baud);
        write_fill(out, 0xFF, 12);
        write_optional(out, &self.spic_calibcfg);
        write_fill(out, 0xFF, 0xf70);
        write_optional(out, &self.bt_parameter_data);
        assert(final(out)@ =~= old(out)@ + self.encoded());
    }

    /// Decoding the encoding of a valid block gives it back; the encoding is 0x1000 bytes.
    #[verifier::rlimit(60)]
    pub proof fn lemma_round_trip(self)
        requires
            self.valid(),
        ensures
            self.encoded().len() == Self::spec_binary_size(),
            self.parsed_from(self.encoded()),
    {
        let e = self.encoded();
        let spi = join_halves(self.spi_cfg.io_mode, self.spi_cfg.io_speed);
        let fi = join_halves(self.flash_info.flash_id, self.flash_info.flash_size);
        lemma_sentinel_round_trip(self.spic_calibcfg);
        lemma_sentinel_round_trip(self.bt_parameter_data);
        assert(e.subrange(0, 4) =~= u32_bytes(u32_or_sentinel(self.ota2_size)));
        assert(e.subrange(4, 8) =~= u32_bytes(u32_or_sentinel(self.ota2_addr)));
        assert(e.subrange(8, 12) =~= u32_bytes(self.old_img_trap.spec_to_u32()));
        assert(e.subrange(32, 36) =~= u32_bytes(spi));
        assert(e.subrange(36, 40) =~= u32_bytes(fi));
        assert(e.subrange(48, 52) =~= u32_bytes(self.ulog_baud));
        lemma_le32_window(e, 0, u32_or_sentinel(self.ota2_size));
        lemma_le32_window(e, 4, u32_or_sentinel(self.ota2_addr));
        lemma_le32_window(e, 8, self.old_img_trap.spec_to_u32());
        lemma_le32_window(e, 32, spi);
        lemma_le32_window(e, 36, fi);
        lemma_le32_window(e, 48, self.ulog_baud);
        self.old_img_trap.lemma_round_trip();
        lemma_halves(self.spi_cfg.io_mode, self.spi_cfg.io_speed);
        lemma_halves(self.flash_info.flash_id, self.flash_info.flash_size);
        assert(e.subrange(64, 112) =~= sentinel_bytes(self.spic_calibcfg));
        assert(e.subrange(0xFE0, 0x1000) =~= sentinel_bytes(self.bt_parameter_data));
    }

    pub fn get_bt_paramdata(&self) -> (r: Option<&[u8; 0x20]>)
        ensures
            r == match self.bt_parameter_data {
                Some(k) => Some(&k),
                None => None,
            },
    {
        match &self.bt_parameter_data {
            Some(k) => Some(k),
            None => None,
        }
    }

    pub fn get_spic_calibcfg(&self) -> (r: Option<&[u8; 0x30]>)
        ensures
            r == match self.spic_calibcfg {
                Some(k) => Some(&k),
                None => None,
            },
    {
        match &self.spic_calibcfg {
            Some(k) => Some(k),
            None => None,
        }
    }

    /// Sets the Bluetooth parameter blob.
    pub fn set_pt_paramdata(&mut self, data: Option<[u8; 0x20]>)
        ensures
            *final(self) == (SystemData { bt_parameter_data: data, ..*old(self) }),
    {
        self.bt_parameter_data = data;
    }

    pub fn set_spic_calibcfg(&mut self, data: Option<[u8; 0x30]>)
        ensures
            *final(self) == (SystemData { spic_calibcfg: data, ..*old(self) }),
    {
        self.spic_calibcfg = data;
    }
}

} // verus!

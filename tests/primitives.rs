use amebazii::hexkey::{key_from_hex, key_to_hex};
use amebazii::bytes::{is_all_ff, write_aligned, write_fill, write_optional, ByteReader};
use amebazii::enums::{HashAlgo, ImageType, KeyExportOp, PartitionType, XipPageRemapSize};
use amebazii::error::{EnumKind, Error};
use amebazii::map::AddressRange;
use amebazii::ota::OTAImage;
use amebazii::pt::TrapConfig;
use amebazii::sysctrl::ForceOldImage;

#[test]
fn trap_config_packs_to_known_value() {
    let t = TrapConfig { valid: true, level: 1, port: 3, pin: 17 };
    assert_eq!(t.to_u16(), 0x8171);
    assert_eq!(TrapConfig::from_u16(0x8171), t);
}

#[test]
fn trap_config_every_value_decodes() {
    let t = TrapConfig::from_u16(0xFFFF);
    assert_eq!(t, TrapConfig { valid: true, level: 1, port: 7, pin: 31 });
    assert_eq!(TrapConfig::from_u16(0), TrapConfig::default());
}

#[test]
fn sentinel_all_ff_reads_none() {
    let mut r = ByteReader::new(vec![0xFF; 32]);
    assert_eq!(r.read_optional::<32>().unwrap(), None);
    assert_eq!(r.position(), 32);
}

#[test]
fn sentinel_one_zero_reads_some() {
    let mut bytes = vec![0xFF; 31];
    bytes.push(0x00);
    let mut r = ByteReader::new(bytes.clone());
    let got = r.read_optional::<32>().unwrap();
    assert_eq!(got.map(|a| a.to_vec()), Some(bytes));
}

#[test]
fn sentinel_none_writes_ff() {
    let mut out = Vec::new();
    write_optional::<32>(&mut out, &None);
    assert_eq!(out, vec![0xFF; 32]);
    let mut out2 = Vec::new();
    write_optional::<4>(&mut out2, &Some([1, 2, 3, 4]));
    assert_eq!(out2, vec![1, 2, 3, 4]);
}

#[test]
fn short_input_is_unexpected_eof() {
    let mut r = ByteReader::new(vec![1, 2, 3]);
    assert_eq!(r.read_u32(), Err(Error::UnexpectedEof));
    assert_eq!(r.read_u16().unwrap(), 0x0201);
    assert_eq!(r.read_u8().unwrap(), 3);
    assert_eq!(r.read_u8(), Err(Error::UnexpectedEof));
}

#[test]
fn little_endian_reads() {
    let mut r = ByteReader::new(vec![0x78, 0x56, 0x34, 0x12]);
    assert_eq!(r.read_u32().unwrap(), 0x1234_5678);
}

#[test]
fn skip_aligned_moves_to_boundary() {
    let mut r = ByteReader::new(vec![0; 0x40]);
    r.skip(3).unwrap();
    r.skip_aligned(0x20).unwrap();
    assert_eq!(r.position(), 0x20);
    r.skip_aligned(0x20).unwrap();
    assert_eq!(r.position(), 0x20);
    r.skip(1).unwrap();
    r.skip_aligned(0x40).unwrap();
    assert_eq!(r.position(), 0x40);
    r.skip(1).unwrap_err();
}

#[test]
fn write_aligned_pads_only_when_needed() {
    let mut out = vec![1u8; 5];
    write_aligned(&mut out, 8, 0xAA);
    assert_eq!(out.len(), 8);
    assert_eq!(&out[5..], &[0xAA, 0xAA, 0xAA]);
    write_aligned(&mut out, 8, 0xAA);
    assert_eq!(out.len(), 8);
}

#[test]
fn write_fill_large_length() {
    let mut out = Vec::new();
    write_fill(&mut out, 0x5A, 10_000);
    assert_eq!(out.len(), 10_000);
    assert!(out.iter().all(|&b| b == 0x5A));
    assert!(!is_all_ff(&out));
}

#[test]
fn enum_codes() {
    assert_eq!(ImageType::try_from_u8(0x3F).unwrap(), ImageType::Unknown);
    assert_eq!(ImageType::try_from_u8(12), Err(Error::UnknownEnumValue(EnumKind::ImageType, 12)));
    assert_eq!(PartitionType::try_from_u8(9).unwrap(), PartitionType::Rdp);
    assert_eq!(
        PartitionType::try_from_u8(10),
        Err(Error::UnknownEnumValue(EnumKind::PartitionType, 10))
    );
    assert_eq!(HashAlgo::try_from_u16(0xFF).unwrap(), HashAlgo::Other);
    assert_eq!(KeyExportOp::try_from_u8(2).unwrap(), KeyExportOp::Both);
    assert_eq!(XipPageRemapSize::_64K.page_size(), 0x10000);
    assert_eq!(ImageType::Cpfw.as_u8(), 11);
}

#[test]
fn checksum_sums_bytes() {
    assert_eq!(OTAImage::checksum_from_buffer(&[1, 2, 3]), 6);
    assert_eq!(OTAImage::checksum_from_buffer(&[]), 0);
    let big = vec![0xFF; 0x0101_0102];
    assert_eq!(OTAImage::checksum_from_buffer(&big), ((0xFFu64 * 0x0101_0102) % (1 << 32)) as u32);
}

#[test]
fn checksum_from_stream_leaves_out_last_four() {
    let mut r = ByteReader::new(vec![1, 2, 3, 9, 9, 9, 9]);
    assert_eq!(OTAImage::checksum_from_stream(&mut r).unwrap(), 6);
    let mut short = ByteReader::new(vec![1, 2]);
    assert_eq!(OTAImage::checksum_from_stream(&mut short), Err(Error::UnexpectedEof));
}

#[test]
fn force_old_image_packing() {
    let f = ForceOldImage::new(17, 1, true);
    assert_eq!(f.to_u32(), 17 | (1 << 5) | (1 << 7));
    let g = ForceOldImage::from_u32(17 | (1 << 5) | (1 << 7));
    assert_eq!(g, f);
    assert_eq!((g.pin(), g.port(), g.is_active()), (17, 1, true));
}

#[test]
fn address_range_bounds() {
    let r = AddressRange::new(0x1000_0000, 0x1000_00A0);
    assert_eq!(r.len(), 0xA0);
    assert!(r.contains(0x1000_0000));
    assert!(!r.contains(0x1000_00A0));
    assert_eq!((r.start(), r.end()), (0x1000_0000, 0x1000_00A0));
}

#[test]
fn key_from_hex_reads_either_case() {
    assert_eq!(key_from_hex::<4>("a1B2c3d4"), Some([0xa1, 0xb2, 0xc3, 0xd4]));
    assert_eq!(key_from_hex::<4>("a1b2c3"), None);
    assert_eq!(key_from_hex::<4>("a1b2c3d"), None);
    assert_eq!(key_from_hex::<4>("a1b2c3dz"), None);
}

#[test]
fn key_to_hex_writes_lowercase() {
    assert_eq!(key_to_hex::<2>(Some(&[0xA1, 0x0F])), Some("a10f".to_string()));
    assert_eq!(key_to_hex::<2>(None), None);
}

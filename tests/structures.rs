use amebazii::bytes::ByteReader;
use amebazii::enums::{EncryptionAlgo, HashAlgo, ImageType, KeyExportOp, PartitionType, SectionType, XipPageRemapSize};
use amebazii::error::{DecodeCause, EnumKind, Error, ImageLayer, StateIssue};
use amebazii::fst::FST;
use amebazii::header::{BinarySize, EntryHeader, ImageHeader, KeyBlock, SectionHeader};
use amebazii::image::{build_segment_size, set_default_segment_size, set_default_signature, AsImage, EncryptedOr};
use amebazii::pt::{PartTab, PartitionTableImage, Record, TrapConfig};
use amebazii::sysctrl::{FlashInfo, ForceOldImage, SpiConfig, SystemData};

fn sample_header() -> ImageHeader {
    let mut h = ImageHeader::default();
    h.segment_size = 0x1234;
    h.next_offset = 0x4000;
    h.img_type = ImageType::Xip;
    h.is_encrypt = true;
    h.serial = 7;
    h.user_key1 = [0xAB; 32];
    h
}

#[test]
fn fixed_sizes_match_binary_size() {
    let mut out = Vec::new();
    KeyBlock::default().write_to(&mut out);
    assert_eq!(out.len(), KeyBlock::binary_size());
    assert_eq!(out.len(), 64);
    let mut out = Vec::new();
    sample_header().write_to(&mut out);
    assert_eq!(out.len(), ImageHeader::binary_size());
    let mut out = Vec::new();
    SectionHeader::default().write_to(&mut out);
    assert_eq!(out.len(), SectionHeader::binary_size());
    assert_eq!(out.len(), 0x60);
    let mut out = Vec::new();
    EntryHeader::default().write_to(&mut out);
    assert_eq!(out.len(), EntryHeader::binary_size());
    assert_eq!(out.len(), 0x20);
    let mut out = Vec::new();
    FST::default().write_to(&mut out);
    assert_eq!(out.len(), FST::binary_size());
    let mut out = Vec::new();
    Record::default().write_to(&mut out);
    assert_eq!(out.len(), Record::binary_size());
    assert_eq!(out.len(), 0x40);
    let mut out = Vec::new();
    SystemData::default().write_to(&mut out);
    assert_eq!(out.len(), 0x1000);
}

#[test]
fn image_header_round_trip() {
    let h = sample_header();
    let mut out = Vec::new();
    h.write_to(&mut out);
    assert_eq!(&out[0..4], &[0x34, 0x12, 0, 0]);
    assert_eq!(out[8], 8);
    assert_eq!(out[11], 0b01);
    let mut r = ByteReader::new(out);
    let back = ImageHeader::read_from(&mut r).unwrap();
    assert_eq!(back.segment_size, 0x1234);
    assert_eq!(back.next_offset, 0x4000);
    assert_eq!(back.img_type, ImageType::Xip);
    assert!(back.is_encrypt);
    assert_eq!(back.serial, 7);
    assert_eq!(back.user_key1, [0xAB; 32]);
    assert_eq!(back.user_key2, [0xFF; 32]);
    assert!(back.has_next());
    assert!(back.is_key1_valid() && !back.is_key2_valid());
    assert_eq!(r.position(), 0x60);
}

#[test]
fn image_header_unknown_type_is_refused() {
    let mut out = Vec::new();
    sample_header().write_to(&mut out);
    out[8] = 0x20;
    let mut r = ByteReader::new(out);
    assert_eq!(
        ImageHeader::read_from(&mut r).unwrap_err(),
        Error::UnknownEnumValue(EnumKind::ImageType, 0x20)
    );
}

#[test]
fn key_block_round_trip() {
    let kb = KeyBlock { enc_pubkey: [1; 32], hash_pubkey: [0xFF; 32] };
    let mut out = Vec::new();
    kb.write_to(&mut out);
    let back = KeyBlock::read_from(&mut ByteReader::new(out)).unwrap();
    assert_eq!(back.get_enc_pubkey(), &[1; 32]);
    assert!(back.is_enc_pubkey_valid());
    assert!(!back.is_hash_pubkey_valid());
}

#[test]
fn section_header_round_trip() {
    let mut h = SectionHeader::default();
    h.length = 0x40;
    h.next_offset = 0x100;
    h.sect_type = SectionType::SRAM;
    h.sce_enabled = true;
    h.xip_page_size = XipPageRemapSize::_32K;
    h.xip_block_size = 3;
    h.xip_key = [0x11; 16];
    h.xip_iv = [0x22; 16];
    let mut out = Vec::new();
    h.write_to(&mut out);
    assert_eq!(out[24], 1);
    let back = SectionHeader::read_from(&mut ByteReader::new(out)).unwrap();
    assert_eq!(back.length, 0x40);
    assert_eq!(back.sect_type, SectionType::SRAM);
    assert_eq!(back.xip_page_size, XipPageRemapSize::_32K);
    assert_eq!(back.xip_block_size, 3);
    assert_eq!(back.get_xip_key(), &[0x11; 16]);
    assert_eq!(back.get_xip_iv(), &[0x22; 16]);
    assert_eq!(back.get_valid_pattern(), &[0, 1, 2, 3, 4, 5, 6, 7]);
    assert!(back.has_next() && back.sce_enabled);
}

#[test]
fn entry_header_round_trip() {
    let e = EntryHeader { length: 0x20, load_address: 0x1000_0000, entry_address: Some(0x1000_0481) };
    let mut out = Vec::new();
    e.write_to(&mut out);
    assert_eq!(EntryHeader::read_from(&mut ByteReader::new(out)).unwrap(), e);
    let none = EntryHeader::default();
    let mut out = Vec::new();
    none.write_to(&mut out);
    assert_eq!(&out[8..12], &[0xFF; 4]);
    assert_eq!(EntryHeader::read_from(&mut ByteReader::new(out)).unwrap(), none);
}

#[test]
fn fst_round_trip() {
    let mut f = FST::default();
    f.enc_algo = Some(EncryptionAlgo::Cbc);
    f.partition_size = 0x8000;
    f.set_cipher_key(Some([3; 32]));
    f.set_cipher_iv(Some([4; 16]));
    let mut out = Vec::new();
    f.write_to(&mut out);
    assert_eq!(out[20], 0b11);
    assert_eq!(out[21], 1);
    let back = FST::read_from(&mut ByteReader::new(out)).unwrap();
    assert_eq!(back.enc_algo, Some(EncryptionAlgo::Cbc));
    assert_eq!(back.hash_algo, Some(HashAlgo::Sha256));
    assert_eq!(back.partition_size, 0x8000);
    assert_eq!(back.get_cipher_key(), Some(&[3; 32]));
    assert_eq!(back.get_cipher_iv(), Some(&[4; 16]));
    assert!(back.is_cipher_key_iv_valid());
}

#[test]
fn fst_disabled_algorithms_read_as_none() {
    let mut f = FST::default();
    f.hash_algo = None;
    let mut out = Vec::new();
    f.write_to(&mut out);
    assert_eq!(&out[0..4], &[0, 0, 0, 0]);
    assert_eq!(out[20], 0);
    let back = FST::read_from(&mut ByteReader::new(out)).unwrap();
    assert_eq!(back.enc_algo, None);
    assert_eq!(back.hash_algo, None);
    assert_eq!(back.get_cipher_key(), None);
}

#[test]
fn record_round_trip() {
    let mut rec = Record::default();
    rec.start_addr = 0x4000;
    rec.length = 0x8000;
    rec.part_type = PartitionType::Boot;
    rec.dbg_skip = true;
    rec.set_hash_key(Some([9; 32]));
    let mut out = Vec::new();
    rec.write_to(&mut out);
    assert_eq!(out[16], 1);
    let back = Record::read_from(&mut ByteReader::new(out)).unwrap();
    assert_eq!((back.start_addr, back.length, back.part_type, back.dbg_skip), (0x4000, 0x8000, PartitionType::Boot, true));
    assert_eq!(back.get_hash_key(), Some(&[9; 32]));
    assert!(back.hash_key_valid());
}

fn one_record_table() -> PartTab {
    let mut t = PartTab::default();
    let i = t.new_record(PartitionType::Boot);
    t.records[i].start_addr = 0x4000;
    t.records[i].length = 0x8000;
    t
}

#[test]
fn part_tab_without_records_is_refused() {
    let t = PartTab::default();
    let mut out = Vec::new();
    assert_eq!(t.write_to(&mut out), Err(Error::InvalidState(StateIssue::EmptyPartitionTable)));
    assert!(out.is_empty());
}

#[test]
fn part_tab_one_record_count_byte_is_zero() {
    let t = one_record_table();
    let mut out = Vec::new();
    t.write_to(&mut out).unwrap();
    assert_eq!(out[4], 0);
    assert_eq!(out.len(), 32 + 64);
}

#[test]
fn part_tab_round_trip() {
    let mut t = one_record_table();
    t.fw1_idx = 1;
    t.ota_trap = TrapConfig { valid: true, level: 1, port: 3, pin: 17 };
    t.key_exp_op = KeyExportOp::Latest;
    t.set_user_ext(&[7; 12]);
    t.set_user_bin(&[1, 2, 3]);
    let mut r2 = Record::default();
    r2.part_type = PartitionType::Fw1;
    r2.start_addr = 0x10000;
    t.add_record(r2);
    let mut out = Vec::new();
    t.write_to(&mut out).unwrap();
    assert_eq!(out[4], 1);
    let mut r = ByteReader::new(out.clone());
    let back = PartTab::read_from(&mut r).unwrap();
    assert_eq!(r.position(), out.len());
    assert_eq!(back.get_records().len(), 2);
    assert_eq!(back.get_record(PartitionType::Fw1).unwrap().start_addr, 0x10000);
    assert_eq!(back.ota_trap, t.ota_trap);
    assert_eq!(back.key_exp_op, KeyExportOp::Latest);
    assert_eq!(back.get_user_ext(), &[7; 12]);
    assert_eq!(back.get_user_bin(), &[1, 2, 3]);
    assert_eq!(back.fw1_idx, 1);
}

#[test]
fn part_tab_user_bin_longer_than_256_is_cut() {
    let mut t = one_record_table();
    t.set_user_bin(&[0x5A; 300]);
    let mut out = Vec::new();
    t.write_to(&mut out).unwrap();
    let back = PartTab::read_from(&mut ByteReader::new(out)).unwrap();
    assert_eq!(back.get_user_bin().len(), 256);
}

#[test]
fn part_tab_records_by_type() {
    let mut t = one_record_table();
    assert!(t.has_record(PartitionType::Boot));
    assert!(!t.has_record(PartitionType::Fw2));
    t.new_record(PartitionType::Fw2);
    t.rem_record(PartitionType::Boot);
    assert!(!t.has_record(PartitionType::Boot));
    assert_eq!(t.get_records().len(), 1);
    assert!(t.get_record(PartitionType::Fw2).is_some());
}

fn table_image() -> PartitionTableImage {
    let mut img = PartitionTableImage::default();
    img.pt = EncryptedOr::Plain(one_record_table());
    img
}

#[test]
fn segment_size_adds_full_quantum_when_aligned() {
    let img = table_image();
    // 0x20 + 2 * 64 + 0 = 0xA0 is aligned, and still gains 0x20.
    assert_eq!(build_segment_size(&img), 0xC0);
    let mut img2 = table_image();
    if let EncryptedOr::Plain(t) = &mut img2.pt {
        t.set_user_bin(&[1, 2, 3]);
    }
    assert_eq!(img2.build_segment_size(), 0xC0);
    assert_eq!(img2.build_segment_size() % 0x20, 0);
}

#[test]
fn segment_size_unchanged_by_signing() {
    let key = [0x42u8; 32];
    let mut img = table_image();
    set_default_segment_size(&mut img);
    let size = img.build_segment_size();
    assert_eq!(img.header.segment_size, size);
    set_default_signature(&mut img, Some(&key)).unwrap();
    assert_eq!(img.build_segment_size(), size);
    let mut out = Vec::new();
    img.write_to(&mut out).unwrap();
    assert_eq!(img.build_segment_size(), size);
    assert_eq!(out.len(), 64 + 96 + size as usize + 32);
}

#[test]
fn signature_is_deterministic_and_covers_records() {
    let key = [0x42u8; 32];
    let mut img = table_image();
    set_default_segment_size(&mut img);
    let a = img.build_signature(Some(&key)).unwrap();
    let b = img.build_signature(Some(&key)).unwrap();
    assert_eq!(a, b);
    assert_eq!(a.len(), 32);
    if let EncryptedOr::Plain(t) = &mut img.pt {
        t.records[0].start_addr = 0x5000;
    }
    let c = img.build_signature(Some(&key)).unwrap();
    assert_ne!(a, c);
}

#[test]
fn table_signature_needs_a_key() {
    let img = table_image();
    assert_eq!(img.build_signature(None), Err(Error::InvalidState(StateIssue::MissingKey)));
}

#[test]
fn table_image_round_trip() {
    let key = [0x42u8; 32];
    let mut img = table_image();
    set_default_segment_size(&mut img);
    set_default_signature(&mut img, Some(&key)).unwrap();
    let mut out = Vec::new();
    img.write_to(&mut out).unwrap();
    let mut r = ByteReader::new(out.clone());
    let back = PartitionTableImage::read_from(&mut r).unwrap();
    assert_eq!(r.position(), out.len());
    assert_eq!(back.get_hash(), img.get_hash());
    assert_eq!(back.header.segment_size, img.header.segment_size);
    match &back.pt {
        EncryptedOr::Plain(t) => assert_eq!(t.get_records()[0].start_addr, 0x4000),
        EncryptedOr::Encrypted(_) => panic!("expected a decoded table"),
    }
    let mut again = ByteReader::new(out);
    assert_eq!(img.create_signature(&mut again, &key).unwrap(), img.build_signature(Some(&key)).unwrap());
}

#[test]
fn table_image_layers_report_malformed() {
    let mut r = ByteReader::new(vec![0; 10]);
    assert_eq!(
        PartitionTableImage::read_from(&mut r).unwrap_err(),
        Error::Malformed(ImageLayer::KeyBlock, DecodeCause::UnexpectedEof)
    );
    let mut bytes = vec![0xFF; 64];
    let mut h = Vec::new();
    ImageHeader::default().write_to(&mut h);
    h[8] = 0x40;
    bytes.extend_from_slice(&h);
    assert_eq!(
        PartitionTableImage::read_from(&mut ByteReader::new(bytes)).unwrap_err(),
        Error::Malformed(ImageLayer::Header, DecodeCause::UnknownEnumValue(EnumKind::ImageType, 0x40))
    );
}

#[test]
fn system_data_round_trip() {
    let mut s = SystemData::default();
    s.ota2_addr = Some(0x8000);
    s.old_img_trap = ForceOldImage::new(3, 1, true);
    s.spi_cfg = SpiConfig { io_mode: 2, io_speed: 1 };
    s.flash_info = FlashInfo { flash_id: 0xC8, flash_size: 3 };
    s.ulog_baud = 115200;
    s.set_spic_calibcfg(Some([0x10; 0x30]));
    s.set_pt_paramdata(Some([0x20; 0x20]));
    let mut out = Vec::new();
    s.write_to(&mut out);
    assert_eq!(out.len(), 0x1000);
    let back = SystemData::read_from(&mut ByteReader::new(out)).unwrap();
    assert_eq!(back.ota2_addr, Some(0x8000));
    assert_eq!(back.ota2_size, None);
    assert_eq!(back.old_img_trap, s.old_img_trap);
    assert_eq!(back.spi_cfg, s.spi_cfg);
    assert_eq!(back.flash_info, s.flash_info);
    assert_eq!(back.ulog_baud, 115200);
    assert_eq!(back.get_spic_calibcfg(), Some(&[0x10; 0x30]));
    assert_eq!(back.get_bt_paramdata(), Some(&[0x20; 0x20]));
}

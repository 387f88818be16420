use amebazii::boot::BootImage;
use amebazii::bytes::ByteReader;
use amebazii::enums::{HashAlgo, ImageType, PartitionType};
use amebazii::error::{Error, StateIssue, Unsupported};
use amebazii::flash::{Flash, Partition};
use amebazii::fst::FST;
use amebazii::image::{build_default_signature, set_default_segment_size, set_default_signature, AsImage, EncryptedOr};
use amebazii::ota::{OTAImage, SubImage};
use amebazii::keys::{ConstKeyPair, HASH_KEY, KEY_PAIR_001_PUB};
use amebazii::pt::{PartTab, PartitionTableImage, Record};
use amebazii::section::Section;
use amebazii::sysctrl::SystemData;
use openssl::md::Md;
use openssl::md_ctx::MdCtx;
use openssl::pkey::PKey;

fn hmac_sha256(key: &[u8], data: &[u8]) -> Vec<u8> {
    let mut out = [0u8; 32];
    let mut ctx = MdCtx::new().unwrap();
    let pkey = PKey::hmac(key).unwrap();
    ctx.digest_sign_init(Some(Md::sha256()), &pkey).unwrap();
    ctx.digest_update(data).unwrap();
    ctx.digest_sign_final(Some(&mut out)).unwrap();
    out.to_vec()
}

fn section_with(data: &[u8]) -> Section {
    let mut s = Section::new_with_size(0);
    s.set_data(data.to_vec());
    s.header.length = 0x20 + data.len() as u32;
    s
}

fn sample_subimage() -> SubImage {
    let mut sub = SubImage::default();
    sub.header.img_type = ImageType::Xip;
    sub.add_section(section_with(&[1, 2, 3, 4, 5, 6, 7, 8, 9, 10])).unwrap();
    set_default_segment_size(&mut sub);
    sub
}

#[test]
fn section_sizes() {
    let s = section_with(&[0; 10]);
    assert_eq!(s.build_aligned_length(), 0x40);
    assert_eq!(s.build_aligned_size(), 0xA0);
    let t = section_with(&[0; 0x20]);
    assert_eq!(t.build_aligned_length(), 0x40);
    assert_eq!(Section::new_with_size(4).get_data(), &[0, 0, 0, 0]);
}

#[test]
fn section_round_trip() {
    let s = section_with(&[7; 10]);
    let mut out = Vec::new();
    s.write_to(&mut out);
    assert_eq!(out.len(), 0x60 + 0x20 + 0x20);
    let mut r = ByteReader::new(out);
    let back = Section::read_from(&mut r).unwrap();
    assert_eq!(back.get_data(), &[7; 10]);
    assert_eq!(r.position(), 0xA0);
}

#[test]
fn subimage_signature_matches_independent_hmac() {
    let key = [0x5Cu8; 32];
    let sub = sample_subimage();
    assert_eq!(sub.header.segment_size, 0x60 + 0x60 + 0x40);
    let mut buffer = Vec::new();
    sub.header.write_to(&mut buffer);
    if let EncryptedOr::Plain(f) = &sub.fst {
        f.write_to(&mut buffer);
    }
    for s in sub.get_sections().unwrap() {
        s.header.write_to(&mut buffer);
        s.entry_header.write_to(&mut buffer);
        buffer.extend_from_slice(s.get_data());
        while buffer.len() % 0x20 != 0 {
            buffer.push(0);
        }
    }
    assert_eq!(buffer.len(), 0x60 + sub.header.segment_size as usize);
    let expected = hmac_sha256(&key, &buffer);
    assert_eq!(sub.build_signature(Some(&key)).unwrap(), expected);
    assert_eq!(build_default_signature(&sub, Some(&key)).unwrap(), expected);
}

#[test]
fn subimage_signature_errors() {
    let mut sub = sample_subimage();
    sub.fst = EncryptedOr::Encrypted(vec![0; 0x60]);
    assert_eq!(sub.build_signature(None), Err(Error::NotImplemented(Unsupported::EncryptedSubImage)));
    let mut sub = sample_subimage();
    let mut f = FST::default();
    f.hash_algo = None;
    sub.fst = EncryptedOr::Plain(f);
    assert_eq!(sub.build_signature(None), Err(Error::NotImplemented(Unsupported::MissingHashAlgo)));
    let mut sub = sample_subimage();
    let mut f = FST::default();
    f.hash_algo = Some(HashAlgo::Other);
    sub.fst = EncryptedOr::Plain(f);
    assert_eq!(sub.build_signature(None), Err(Error::UnsupportedHashAlgo(0xFF)));
}

#[test]
fn md5_signature_does_not_fit_the_hash_field() {
    let mut sub = sample_subimage();
    let mut f = FST::default();
    f.hash_algo = Some(HashAlgo::Md5);
    sub.fst = EncryptedOr::Plain(f);
    assert_eq!(sub.build_signature(None).unwrap().len(), 16);
    assert_eq!(
        set_default_signature(&mut sub, None),
        Err(Error::InvalidState(StateIssue::SignatureLength))
    );
}

#[test]
fn hash_algorithms_digest_known_input() {
    let sha = HashAlgo::Sha256.compute_hash(b"abc", None).unwrap();
    assert_eq!(hex::encode(&sha), "ba7816bf8f01cfea414140de5dae2223b00361a396177a9cb410ff61f20015ad");
    let md5 = HashAlgo::Md5.compute_hash(b"abc", None).unwrap();
    assert_eq!(hex::encode(&md5), "900150983cd24fb0d6963f7d28e17f72");
    let mac = HashAlgo::Sha256.compute_hash(b"abc", Some(b"key")).unwrap();
    assert_eq!(mac, hmac_sha256(b"key", b"abc"));
    assert_ne!(mac, sha);
    let mac5 = HashAlgo::Md5.compute_hash(b"abc", Some(b"key")).unwrap();
    assert_eq!(mac5.len(), 16);
    assert_ne!(mac5, md5);
}

fn sample_ota() -> OTAImage {
    let key = [0x5Cu8; 32];
    let mut ota = OTAImage::default();
    ota.public_keys[1] = Some([0x33; 32]);
    let mut sub = sample_subimage();
    set_default_signature(&mut sub, Some(&key)).unwrap();
    ota.add_subimage(sub);
    ota
}

#[test]
fn ota_round_trip() {
    let mut ota = sample_ota();
    ota.checksum = Some(0x1234);
    let mut out = Vec::new();
    ota.write_to(&mut out);
    let mut r = ByteReader::new(out.clone());
    let back = OTAImage::read_from(&mut r).unwrap();
    assert_eq!(r.position(), out.len());
    assert_eq!(back.get_subimages().len(), 1);
    assert_eq!(back.get_public_key(0), None);
    assert_eq!(back.get_public_key(1), Some(&[0x33; 32]));
    assert_eq!(back.checksum, Some(0x1234));
    let sub = back.get_subimage(0).unwrap();
    assert_eq!(sub.get_hash(), ota.get_subimage(0).unwrap().get_hash());
    assert_eq!(sub.get_section(0).unwrap().get_data(), &[1, 2, 3, 4, 5, 6, 7, 8, 9, 10]);
    assert!(sub.get_section(1).is_none());
}

#[test]
fn ota_signature_covers_first_header() {
    let key = [1u8; 32];
    let mut ota = sample_ota();
    let sig = ota.build_ota_signature(Some(&key)).unwrap();
    let mut header = Vec::new();
    ota.get_subimage(0).unwrap().header.write_to(&mut header);
    assert_eq!(sig, hmac_sha256(&key, &header));
    let mut r = ByteReader::new(header);
    assert_eq!(OTAImage::ota_signature_from_stream(&mut r, HashAlgo::Sha256, Some(&key)).unwrap(), sig);
    ota.set_ota_signature(&sig);
    assert_eq!(ota.get_ota_signature().to_vec(), sig);
    let empty = OTAImage::default();
    assert_eq!(empty.build_ota_signature(None), Err(Error::NotImplemented(Unsupported::MissingSubImage)));
}

#[test]
fn ota_subimage_list_edits() {
    let mut ota = sample_ota();
    ota.add_subimage(SubImage::default());
    assert_eq!(ota.get_subimages().len(), 2);
    ota.rem_subimage_at(0);
    assert_eq!(ota.get_subimages().len(), 1);
    let mut sub = SubImage::default();
    sub.sections = EncryptedOr::Encrypted(vec![1, 2]);
    assert_eq!(sub.add_section(Section::new_with_size(1)), Err(Error::NotImplemented(Unsupported::EncryptedSubImage)));
    assert!(sub.get_sections().is_err());
}

#[test]
fn boot_segment_size_and_signature() {
    let key = [7u8; 32];
    let mut boot = BootImage::default();
    assert_eq!(boot.build_segment_size(), 0x40);
    boot.set_text(vec![1; 0x21]);
    assert_eq!(boot.build_segment_size(), 0x60);
    set_default_segment_size(&mut boot);
    assert_eq!(boot.entry.length, 0x40);
    assert_eq!(boot.build_signature(None), Err(Error::InvalidState(StateIssue::MissingKey)));
    set_default_signature(&mut boot, Some(&key)).unwrap();
    let mut out = Vec::new();
    boot.write_to(&mut out);
    let back = BootImage::read_from(&mut ByteReader::new(out)).unwrap();
    assert_eq!(back.header.segment_size, 0x60);
    assert_eq!(&back.get_text()[..0x21], &[1; 0x21]);
}

fn minimal_flash() -> (Flash, BootImage) {
    let key = [0x42u8; 32];
    let mut table = PartTab::default();
    let i = table.new_record(PartitionType::Boot);
    table.records[i].start_addr = 0x4000;
    table.records[i].length = 0x8000;
    let mut pti = PartitionTableImage::default();
    pti.pt = EncryptedOr::Plain(table);
    set_default_segment_size(&mut pti);
    set_default_signature(&mut pti, Some(&key)).unwrap();
    let mut boot = BootImage::default();
    boot.header.img_type = ImageType::Boot;
    set_default_segment_size(&mut boot);
    set_default_signature(&mut boot, Some(&key)).unwrap();
    let mut boot_copy = BootImage::default();
    boot_copy.header = boot.header;
    let mut flash = Flash::default();
    flash.get_calibration_pattern_mut().copy_from_slice(&[0x99, 0x99, 0x96, 0x96, 0x3F, 0xCC, 0x66, 0xFC, 0xC0, 0x33, 0xCC, 0x03, 0xE5, 0xDC, 0x31, 0x62]);
    flash.set_partition_table(pti);
    flash.set_system_partition(SystemData::default());
    flash.set_boot_partition(boot);
    (flash, boot_copy)
}

#[test]
fn minimal_flash_build_round_trips() {
    let (flash, boot) = minimal_flash();
    let mut out = Vec::new();
    flash.write_to(&mut out).unwrap();
    assert_eq!(&out[0x4000 - 1..0x4000], &[0xFF]);
    let back = Flash::read_from(&mut ByteReader::new(out)).unwrap();
    assert_eq!(back.get_calibration_pattern(), flash.get_calibration_pattern());
    match back.get_partition(PartitionType::Boot) {
        Some(Partition::Bootloader(b)) => {
            assert_eq!(b.header.segment_size, boot.header.segment_size);
            assert_eq!(b.header.img_type, boot.header.img_type);
        },
        _ => panic!("boot partition missing"),
    }
    assert!(back.has_partition(PartitionType::PartTab));
    assert!(!back.has_partition(PartitionType::Fw1));
}

#[test]
fn flash_needs_table_and_system() {
    let empty = Flash::default();
    let mut out = Vec::new();
    assert_eq!(empty.write_to(&mut out), Err(Error::InvalidState(StateIssue::MissingPartitionTable)));
    let mut only_table = Flash::default();
    only_table.set_partition_table(PartitionTableImage::default());
    assert_eq!(only_table.write_to(&mut out), Err(Error::InvalidState(StateIssue::MissingSystemPartition)));
}

#[test]
fn flash_partition_before_system_area_is_refused() {
    let (mut flash, _) = minimal_flash();
    if let Some(Partition::PartitionTable(pti)) = flash.get_partition(PartitionType::PartTab) {
        let mut pti2 = PartitionTableImage::default();
        pti2.header = pti.header;
        if let EncryptedOr::Plain(t) = &pti.pt {
            let mut t2 = t.clone();
            t2.records[0].start_addr = 0x100;
            pti2.pt = EncryptedOr::Plain(t2);
        }
        flash.set_partition_table(pti2);
    }
    let mut out = Vec::new();
    assert_eq!(flash.write_to(&mut out), Err(Error::InvalidState(StateIssue::PositionPastTarget)));
}

#[test]
fn flash_missing_placed_partition_is_refused() {
    let (mut flash, _) = minimal_flash();
    flash.partitions[PartitionType::Boot.as_u8() as usize] = None;
    let mut out = Vec::new();
    assert_eq!(flash.write_to(&mut out), Err(Error::InvalidState(StateIssue::MissingPartition)));
}

#[test]
fn mutable_accessors_change_in_place() {
    let mut ota = sample_ota();
    ota.get_subimage_mut(0).unwrap().header.serial = 42;
    assert_eq!(ota.get_subimage(0).unwrap().header.serial, 42);
    assert!(ota.get_subimage_mut(3).is_none());
    ota.get_subimages_mut()[0].header.serial = 43;
    assert_eq!(ota.get_subimages()[0].header.serial, 43);
    let sub = ota.get_subimage_mut(0).unwrap();
    sub.get_section_mut(0).unwrap().set_data(vec![5]);
    sub.get_sections_mut().unwrap()[0].header.length = 0x21;
    assert_eq!(sub.get_section(0).unwrap().get_data(), &[5]);
    assert_eq!(sub.get_section(0).unwrap().header.length, 0x21);
    let mut table = PartTab::default();
    table.new_record(PartitionType::Boot);
    table.new_record(PartitionType::Fw1);
    table.get_record_mut(PartitionType::Fw1).unwrap().start_addr = 0x9000;
    assert_eq!(table.get_record(PartitionType::Fw1).unwrap().start_addr, 0x9000);
    assert_eq!(table.find_record(PartitionType::Fw1), Some(1));
    assert!(table.get_record_mut(PartitionType::Fw2).is_none());
}

#[test]
fn boot_image_hash_reads_back() {
    let key = [7u8; 32];
    let mut boot = BootImage::default();
    boot.set_text(vec![3; 0x21]);
    set_default_segment_size(&mut boot);
    set_default_signature(&mut boot, Some(&key)).unwrap();
    let mut out = Vec::new();
    boot.write_to(&mut out);
    let mut r = ByteReader::new(out.clone());
    let back = BootImage::read_from(&mut r).unwrap();
    assert_eq!(r.position(), out.len());
    assert_eq!(back.get_hash(), boot.get_hash());
    assert_eq!(back.get_text().len(), 0x60 - 0x20);
    assert_eq!(&back.get_text()[..0x21], &[3; 0x21]);
    assert!(back.get_text()[0x21..].iter().all(|&b| b == 0));
    let empty = BootImage::default();
    let mut e = empty;
    set_default_segment_size(&mut e);
    e.hash = [0x5A; 32];
    let mut out = Vec::new();
    e.write_to(&mut out);
    assert_eq!(BootImage::read_from(&mut ByteReader::new(out)).unwrap().get_hash(), &[0x5A; 32]);
}

#[test]
fn record_key_of_sentinel_bytes_keeps_its_flag() {
    let mut rec = Record::default();
    rec.set_hash_key(Some([0xFF; 32]));
    let mut out = Vec::new();
    rec.write_to(&mut out);
    assert_eq!(out[16], 1);
    let back = Record::read_from(&mut ByteReader::new(out)).unwrap();
    assert_eq!(back.get_hash_key(), Some(&[0xFF; 32]));
}

#[test]
fn flash_table_ending_on_boundary_gets_no_padding() {
    let (mut flash, _) = minimal_flash();
    if let Some(Partition::PartitionTable(pti)) = flash.get_partition(PartitionType::PartTab) {
        let mut pti2 = PartitionTableImage::default();
        pti2.header = pti.header;
        pti2.header.segment_size = 0x1000 - 32 - 64 - 96 - 32;
        if let EncryptedOr::Plain(t) = &pti.pt {
            pti2.pt = EncryptedOr::Plain(t.clone());
        }
        flash.set_partition_table(pti2);
    }
    let mut out = Vec::new();
    flash.write_to(&mut out).unwrap();
    let mut sys = Vec::new();
    SystemData::default().write_to(&mut sys);
    assert_eq!(&out[0x1000..0x2000], &sys[..]);
    assert!(out[0x2000..0x4000].iter().all(|&b| b == 0xFF));
    let back = Flash::read_from(&mut ByteReader::new(out)).unwrap();
    assert!(back.has_partition(PartitionType::Boot));
}

#[test]
fn ota_absent_checksum_is_written_as_sentinel() {
    let ota = sample_ota();
    let mut out = Vec::new();
    ota.write_to(&mut out);
    assert_eq!(&out[out.len() - 4..], &[0xFF; 4]);
    let mut r = ByteReader::new(out.clone());
    let back = OTAImage::read_from(&mut r).unwrap();
    assert_eq!(back.checksum, None);
    assert_eq!(r.position(), out.len());
}

#[test]
fn ota_checksum_covers_the_file() {
    let mut ota = sample_ota();
    ota.update_checksum();
    let mut out = Vec::new();
    ota.write_to(&mut out);
    let n = out.len() - 4;
    let sum = out[..n].iter().fold(0u32, |a, &b| a.wrapping_add(b as u32));
    assert_eq!(ota.checksum, Some(sum));
    assert_eq!(&out[n..], &sum.to_le_bytes());
}

#[test]
fn demo_key_pairs() {
    let k = ConstKeyPair::demo(1).unwrap();
    assert_eq!(k.get_pub_key(), &KEY_PAIR_001_PUB);
    assert!(ConstKeyPair::demo(4).is_none());
    assert_eq!(HASH_KEY[0], 0x47);
}

use amebazii::bytes::ByteReader;
use amebazii::error::{Error, StateIssue};
use amebazii::nvdm::{DataItem, DataItemHeader, DataItemStatus, NvdmDataItemType, PebHeader, PebStatus, NVDM};

fn item_bytes(status: u8, group: &str, name: &str, value: &[u8]) -> Vec<u8> {
    let mut h = DataItemHeader::default();
    h.status = DataItemStatus::from_u8(status);
    h.group_name_size = group.len() as u8 + 1;
    h.data_item_name_size = name.len() as u8 + 1;
    h.value_size = value.len() as u16;
    let mut out = Vec::new();
    h.write_to(&mut out);
    out.extend_from_slice(group.as_bytes());
    out.push(0);
    out.extend_from_slice(name.as_bytes());
    out.push(0);
    out.extend_from_slice(value);
    out.extend_from_slice(&[0x34, 0x12]);
    out
}

fn region() -> Vec<u8> {
    let mut out = vec![0x4E, 0x56, 0x44, 0x4D, 0, 0, 0, 0, 224, 0xFF, 0, 0];
    out.extend(item_bytes(252, "g1", "n1", &[7, 8]));
    out.extend(vec![0xFF; 64 - out.len()]);
    let mut second = vec![0x4E, 0x56, 0x44, 0x4D, 1, 0, 0, 0, 224, 0xFF, 0, 0];
    second.extend(item_bytes(248, "g2", "n2", &[9]));
    second.extend(vec![0xFF; 64 - second.len()]);
    out.extend(second);
    out
}

#[test]
fn data_item_header_is_twenty_bytes() {
    let mut h = DataItemHeader::default();
    h.item_type = NvdmDataItemType::String;
    h.sequence_number = 5;
    let mut out = Vec::new();
    h.write_to(&mut out);
    assert_eq!(out.len(), 20);
    assert_eq!(out[0], 255);
    assert_eq!(out[11], 2);
    assert_eq!(DataItemHeader::read_from(&mut ByteReader::new(out)).unwrap(), h);
}

#[test]
fn data_item_reads_names_and_value() {
    let bytes = item_bytes(252, "grp", "item", &[1, 2, 3]);
    let mut r = ByteReader::new(bytes.clone());
    let item = DataItem::read_from(&mut r).unwrap();
    assert_eq!(item.group(), "grp");
    assert_eq!(item.name(), "item");
    assert_eq!(item.data(), &[1, 2, 3]);
    assert_eq!(item.item_size() as usize, bytes.len());
    assert_eq!(r.position(), bytes.len());
    assert_eq!(item.item_header().status, DataItemStatus::Valid);
    assert_eq!(item.checksum, 0x1234);
}

#[test]
fn data_item_bad_utf8_is_refused() {
    let mut bytes = item_bytes(252, "g", "n", &[]);
    bytes[20] = 0xFF;
    assert_eq!(DataItem::read_from(&mut ByteReader::new(bytes)).unwrap_err(), Error::InvalidText);
}

#[test]
fn peb_header_magic_is_checked() {
    let good = vec![0x4E, 0x56, 0x44, 0x4D, 3, 0, 0, 0, 224, 0xFF, 1, 0];
    let h = PebHeader::read_from(&mut ByteReader::new(good)).unwrap();
    assert_eq!(h.erase_count, 3);
    assert_eq!(h.status, PebStatus::Actived);
    let bad = vec![0x4E, 0x56, 0x44, 0x00, 3, 0, 0, 0, 224, 0xFF, 1, 0];
    assert_eq!(
        PebHeader::read_from(&mut ByteReader::new(bad)).unwrap_err(),
        Error::InvalidState(StateIssue::BadMagic)
    );
}

#[test]
fn nvdm_collects_items_of_active_blocks() {
    let mut nvdm = NVDM::from_peb_size(64);
    assert_eq!(nvdm.nvdm_port_get_peb_address(2, 5), 133);
    nvdm.read_from(&mut ByteReader::new(region())).unwrap();
    assert_eq!(nvdm.items.len(), 2);
    let item = nvdm.get_item("g1", "n1", DataItemStatus::Valid).unwrap();
    assert_eq!(item.data(), &[7, 8]);
    assert!(nvdm.get_item("g1", "n1", DataItemStatus::Delete).is_none());
    assert_eq!(nvdm.get_items_by_group("g2", DataItemStatus::Delete).len(), 1);
    assert_eq!(nvdm.get_items_by_group("g2", DataItemStatus::Valid).len(), 0);
    assert_eq!(nvdm.get_groups(), vec!["g1", "g2"]);
}

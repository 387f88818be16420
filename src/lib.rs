//! Codec and signing engine for the Ameba-Z2 flash layout: partition tables,
//! system data, boot and OTA images, each decoded from and encoded to bytes
//! with verified layouts.

pub mod bytes;
pub mod error;
pub mod enums;
pub mod hash;
pub mod header;
pub mod fst;
pub mod image;
pub mod pt;
pub mod section;
pub mod ota;
pub mod boot;
pub mod sysctrl;
pub mod flash;
pub mod keys;
pub mod map;
pub mod hexkey;
pub mod nvdm;

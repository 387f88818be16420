//! Default key material, as read-only constants that callers hand to the codec,
//! and the key pairs built from it.
use vstd::prelude::*;

verus! {

/// A private key and its public key, 32 bytes each.
#[derive(Debug, Clone, Copy)]
pub struct ConstKeyPair {
    priv_key: [u8; 32],
    pub_key: [u8; 32],
}

impl ConstKeyPair {
    pub closed spec fn spec_priv_key(&self) -> [u8; 32] {
        self.priv_key
    }

    pub closed spec fn spec_pub_key(&self) -> [u8; 32] {
        self.pub_key
    }

    pub fn new(priv_key: [u8; 32], pub_key: [u8; 32]) -> (r: Self)
        ensures
            r.spec_priv_key() == priv_key,
            r.spec_pub_key() == pub_key,
    {
        ConstKeyPair { priv_key, pub_key }
    }

    pub fn get_priv_key(&self) -> (r: &[u8; 32])
        ensures
            *r == self.spec_priv_key(),
    {
        &self.priv_key
    }

    pub fn get_pub_key(&self) -> (r: &[u8; 32])
        ensures
            *r == self.spec_pub_key(),
    {
        &self.pub_key
    }
}


/// The default HMAC key for partition tables and boot images.
pub const HASH_KEY: [u8; 32] = [
    0x47, 0xe5, 0x66, 0x13, 0x35, 0xa4, 0xc5, 0xe0, 0xa9, 0x4d, 0x69, 0xf3, 0xc7, 0x37, 0xd5, 0x4f,
    0x23, 0x83, 0x79, 0x13, 0x32, 0x93, 0x97, 0x53, 0xef, 0x24, 0x27, 0x96, 0x08, 0xf6, 0xd7, 0x2b,
];

/// The default cipher IV.
pub const DEFAULT_IV: [u8; 16] = [
    0xe7, 0x91, 0x9e, 0xe6, 0x98, 0xb1, 0xe5, 0x8d, 0x8a, 0xe5, 0xb0, 0x8e, 0xe9, 0xab, 0x94, 0x38,
];

/// The default second user key of application images.
pub const APP_DEFAULT_USER_KEY2: [u8; 32] = [
    0xbb, 0x01, 0x02, 0x03, 0x04, 0x05, 0x06, 0x07, 0x08, 0x09, 0x0a, 0x0b, 0x0c, 0x0d, 0x0e, 0x0f,
    0x10, 0x11, 0x12, 0x13, 0x14, 0x15, 0x16, 0x17, 0x18, 0x19, 0x1a, 0x1b, 0x1c, 0x1d, 0x1e, 0x1f,
];

/// The default first user key of the boot image.
pub const BOOT_DEFAULT_USER_KEY1: [u8; 32] = [
    0xaa, 0x01, 0x02, 0x03, 0x04, 0x05, 0x06, 0x07, 0x08, 0x09, 0x0a, 0x0b, 0x0c, 0x0d, 0x0e, 0x0f,
    0x10, 0x11, 0x12, 0x13, 0x14, 0x15, 0x16, 0x17, 0x18, 0x19, 0x1a, 0x1b, 0x1c, 0x1d, 0x1e, 0x1f,
];

/// The default execute-in-place key.
pub const XIP_KEY: [u8; 16] = [
    0xa0, 0xd6, 0xda, 0xe7, 0xe0, 0x62, 0xca, 0x94, 0xcb, 0xb2, 0x94, 0xbf, 0x89, 0x6b, 0x9f, 0x68,
];

/// The default execute-in-place IV.
pub const XIP_IV: [u8; 16] = [
    0x94, 0x87, 0x94, 0x87, 0x94, 0x87, 0x94, 0x87, 0x94, 0x87, 0x94, 0x87, 0x94, 0x87, 0x94, 0x87,
];

/// The calibration pattern at the start of every flash image.
pub const FLASH_PATTERN: [u8; 16] = [
    0x99, 0x99, 0x96, 0x96, 0x3f, 0xcc, 0x66, 0xfc, 0xc0, 0x33, 0xcc, 0x03, 0xe5, 0xdc, 0x31, 0x62,
];

/// The private key of the demonstration key pair 000.
pub const KEY_PAIR_000_PRIV: [u8; 32] = [
    0xa0, 0xd6, 0xda, 0xe7, 0xe0, 0x62, 0xca, 0x94, 0xcb, 0xb2, 0x94, 0xbf, 0x89, 0x6b, 0x9f, 0x68,
    0xcf, 0x84, 0x38, 0x77, 0x42, 0x56, 0xac, 0x74, 0x03, 0xca, 0x4f, 0xd9, 0xa1, 0xc9, 0x56, 0x4f,
];

/// The public key of the demonstration key pair 000.
pub const KEY_PAIR_000_PUB: [u8; 32] = [
    0x68, 0x51, 0x3e, 0xf8, 0x3e, 0x39, 0x6b, 0x12, 0xba, 0x05, 0x9a, 0x90, 0x0f, 0x36, 0xb6, 0xd3,
    0x1d, 0x11, 0xfe, 0x1c, 0x5d, 0x25, 0xeb, 0x8a, 0xa7, 0xc5, 0x50, 0x30, 0x7f, 0x9c, 0x24, 0x05,
];

/// The private key of the demonstration key pair 001.
pub const KEY_PAIR_001_PRIV: [u8; 32] = [
    0x88, 0x2a, 0xa1, 0x6c, 0x8c, 0x44, 0xa7, 0x76, 0x0a, 0xa8, 0xc9, 0xab, 0x22, 0xe3, 0x56, 0x8c,
    0x6f, 0xa1, 0x6c, 0x2a, 0xfa, 0x4f, 0x0c, 0xea, 0x29, 0xa1, 0x0a, 0xbc, 0xdf, 0x60, 0xe4, 0x4f,
];

/// The public key of the demonstration key pair 001.
pub const KEY_PAIR_001_PUB: [u8; 32] = [
    0x48, 0xad, 0x23, 0xdd, 0xbd, 0xac, 0x9e, 0x65, 0x71, 0x9d, 0xb7, 0xd3, 0x94, 0xd4, 0x4d, 0x62,
    0x82, 0x0d, 0x19, 0xe5, 0x0d, 0x68, 0x37, 0x67, 0x74, 0x23, 0x7e, 0x98, 0xd2, 0x30, 0x5e, 0x6a,
];

/// The private key of the demonstration key pair 002.
pub const KEY_PAIR_002_PRIV: [u8; 32] = [
    0x58, 0xa3, 0xd9, 0x15, 0x70, 0x68, 0x35, 0x21, 0x22, 0x60, 0xc2, 0x2d, 0x62, 0x8b, 0x33, 0x6d,
    0x13, 0x19, 0x0b, 0x53, 0x97, 0x14, 0xe3, 0xdb, 0x24, 0x9d, 0x82, 0x3c, 0xa5, 0x77, 0x44, 0x53,
];

/// The public key of the demonstration key pair 002.
pub const KEY_PAIR_002_PUB: [u8; 32] = [
    0xfd, 0x8d, 0x3f, 0x3e, 0x51, 0x6d, 0x96, 0x18, 0x6e, 0x10, 0xf0, 0x7a, 0x64, 0xb2, 0x4c, 0x7d,
    0xe7, 0x36, 0x82, 0x6a, 0x24, 0xfa, 0xfe, 0x36, 0x7e, 0x79, 0xf1, 0xfb, 0xb2, 0xf1, 0xc8, 0x32,
];

/// The private key of the demonstration key pair 003.
pub const KEY_PAIR_003_PRIV: [u8; 32] = [
    0x00, 0x01, 0x02, 0x03, 0x04, 0x05, 0x06, 0x07, 0x08, 0x09, 0x0a, 0x0b, 0x0c, 0x0d, 0x0e, 0x0f,
    0x10, 0x11, 0x12, 0x13, 0x14, 0x15, 0x16, 0x17, 0x18, 0x19, 0x1a, 0x1b, 0x1c, 0x1d, 0x1e, 0x5f,
];

/// The public key of the demonstration key pair 003.
pub const KEY_PAIR_003_PUB: [u8; 32] = [
    0x8f, 0x40, 0xc5, 0xad, 0xb6, 0x8f, 0x25, 0x62, 0x4a, 0xe5, 0xb2, 0x14, 0xea, 0x76, 0x7a, 0x6e,
    0xc9, 0x4d, 0x82, 0x9d, 0x3d, 0x7b, 0x5e, 0x1a, 0xd1, 0xba, 0x6f, 0x3e, 0x21, 0x38, 0x28, 0x5f,
];

impl ConstKeyPair {
    /// The demonstration key pair with number `index` (0 to 3).
    pub fn demo(index: u8) -> (r: Option<ConstKeyPair>)
        ensures
            r is Some <==> index < 4,
            index == 0 ==> (r matches Some(k) && k.spec_priv_key() == KEY_PAIR_000_PRIV
                && k.spec_pub_key() == KEY_PAIR_000_PUB),
            index == 1 ==> (r matches Some(k) && k.spec_priv_key() == KEY_PAIR_001_PRIV
                && k.spec_pub_key() == KEY_PAIR_001_PUB),
            index == 2 ==> (r matches Some(k) && k.spec_priv_key() == KEY_PAIR_002_PRIV
                && k.spec_pub_key() == KEY_PAIR_002_PUB),
            index == 3 ==> (r matches Some(k) && k.spec_priv_key() == KEY_PAIR_003_PRIV
                && k.spec_pub_key() == KEY_PAIR_003_PUB),
    {
        match index {
            0 => Some(ConstKeyPair::new(KEY_PAIR_000_PRIV, KEY_PAIR_000_PUB)),
            1 => Some(ConstKeyPair::new(KEY_PAIR_001_PRIV, KEY_PAIR_001_PUB)),
            2 => Some(ConstKeyPair::new(KEY_PAIR_002_PRIV, KEY_PAIR_002_PUB)),
            3 => Some(ConstKeyPair::new(KEY_PAIR_003_PRIV, KEY_PAIR_003_PUB)),
            _ => None,
        }
    }
}

} // verus!


//! Digests and keyed digests, computed by OpenSSL.
use vstd::prelude::*;

use openssl::error::ErrorStack;
use openssl::md::Md;
use openssl::md_ctx::MdCtx;
use openssl::pkey::PKey;

use crate::enums::HashAlgo;
use crate::error::Error;

verus! {

/// OpenSSL's error type, carried opaque until it is mapped to `Error::Crypto`.
#[verifier::external_type_specification]
#[verifier::external_body]
pub struct ExErrorStack(ErrorStack);

/// The SHA-256 digest of `data`.
pub uninterp spec fn sha256_of(data: Seq<u8>) -> Seq<u8>;

/// The MD5 digest of `data`.
pub uninterp spec fn md5_of(data: Seq<u8>) -> Seq<u8>;

/// The HMAC-SHA256 of `data` under `key`.
pub uninterp spec fn hmac_sha256_of(key: Seq<u8>, data: Seq<u8>) -> Seq<u8>;

/// The HMAC-MD5 of `data` under `key`.
pub uninterp spec fn hmac_md5_of(key: Seq<u8>, data: Seq<u8>) -> Seq<u8>;

/// The longest key that OpenSSL takes for an HMAC (its `c_int` maximum).
pub const MAX_HMAC_KEY_LEN: usize = 0x7fff_ffff;

/// Relies on openssl's `MdCtx` with `PKey::hmac` and `Md::sha256`: the HMAC-SHA256 of
/// `data` under `key`. `PKey::hmac` asserts that the key length fits a `c_int`.
#[verifier::external_body]
fn hmac_sha256(key: &[u8], data: &[u8]) -> (r: Result<[u8; 32], ErrorStack>)
    requires
        key@.len() <= MAX_HMAC_KEY_LEN,
    ensures
        r matches Ok(d) ==> d@ == hmac_sha256_of(key@, data@),
{
    let mut signature = [0xFF; 32];
    let mut ctx = MdCtx::new()?;
    let pkey = PKey::hmac(key)?;
    ctx.digest_sign_init(Some(Md::sha256()), &pkey)?;
    ctx.digest_update(data)?;
    ctx.digest_sign_final(Some(&mut signature))?;
    Ok(signature)
}

/// Relies on openssl's `MdCtx` with `PKey::hmac` and `Md::md5`: the HMAC-MD5 of `data`
/// under `key`. `PKey::hmac` asserts that the key length fits a `c_int`.
#[verifier::external_body]
fn hmac_md5(key: &[u8], data: &[u8]) -> (r: Result<[u8; 16], ErrorStack>)
    requires
        key@.len() <= MAX_HMAC_KEY_LEN,
    ensures
        r matches Ok(d) ==> d@ == hmac_md5_of(key@, data@),
{
    let mut signature = [0xFF; 16];
    let mut ctx = MdCtx::new()?;
    let pkey = PKey::hmac(key)?;
    ctx.digest_sign_init(Some(Md::md5()), &pkey)?;
    ctx.digest_update(data)?;
    ctx.digest_sign_final(Some(&mut signature))?;
    Ok(signature)
}

/// Relies on openssl's `MdCtx` with `Md::sha256`: the SHA-256 digest of `data`.
#[verifier::external_body]
fn sha256(data: &[u8]) -> (r: Result<[u8; 32], ErrorStack>)
    ensures
        r matches Ok(d) ==> d@ == sha256_of(data@),
{
    let mut digest = [0xFF; 32];
    let mut ctx = MdCtx::new()?;
    ctx.digest_init(Md::sha256())?;
    ctx.digest_update(data)?;
    ctx.digest_final(&mut digest)?;
    Ok(digest)
}

/// Relies on openssl's `MdCtx` with `Md::md5`: the MD5 digest of `data`.
#[verifier::external_body]
fn md5(data: &[u8]) -> (r: Result<[u8; 16], ErrorStack>)
    ensures
        r matches Ok(d) ==> d@ == md5_of(data@),
{
    let mut digest = [0xFF; 16];
    let mut ctx = MdCtx::new()?;
    ctx.digest_init(Md::md5())?;
    ctx.digest_update(data)?;
    ctx.digest_final(&mut digest)?;
    Ok(digest)
}

/// The optional key as a sequence.
pub open spec fn key_view(key: Option<&[u8]>) -> Option<Seq<u8>> {
    match key {
        Some(k) => Some(k@),
        None => None,
    }
}

/// The key fits what OpenSSL takes for an HMAC.
pub open spec fn key_ok(key: Option<&[u8]>) -> bool {
    match key {
        Some(k) => k@.len() <= MAX_HMAC_KEY_LEN,
        None => true,
    }
}

/// The digest that `algo` gives for `data`: keyed when a key is given.
pub open spec fn digest_of(algo: HashAlgo, key: Option<Seq<u8>>, data: Seq<u8>) -> Seq<u8> {
    match (algo, key) {
        (HashAlgo::Sha256, Some(k)) => hmac_sha256_of(k, data),
        (HashAlgo::Sha256, None) => sha256_of(data),
        (HashAlgo::Md5, Some(k)) => hmac_md5_of(k, data),
        (HashAlgo::Md5, None) => md5_of(data),
        (HashAlgo::Other, _) => Seq::empty(),
    }
}

/// Copies an array into a vector.
pub fn array_to_vec<const N: usize>(a: &[u8; N]) -> (r: Vec<u8>)
    ensures
        r@ == a@,
{
    let mut v: Vec<u8> = Vec::new();
    let mut i: usize = 0;
    while i < N
        invariant
            i <= N,
            a@.len() == N,
            v@ == a@.subrange(0, i as int),
        decreases N - i,
    {
        v.push(a[i]);
        i = i + 1;
        assert(v@ =~= a@.subrange(0, i as int));
    }
    assert(a@.subrange(0, N as int) =~= a@);
    v
}

impl HashAlgo {
    /// The digest of `buffer` under this algorithm, an HMAC when `key` is given.
    /// `Other` has no digest; a failure inside OpenSSL is `Crypto`.
    pub fn compute_hash(&self, buffer: &[u8], key: Option<&[u8]>) -> (r: Result<Vec<u8>, Error>)
        requires
            key_ok(key),
        ensures
            *self == HashAlgo::Other ==> r == Err::<Vec<u8>, Error>(Error::UnsupportedHashAlgo(0xFF)),
            r matches Ok(d) ==> d@ == digest_of(*self, key_view(key), buffer@),
            r matches Err(e) ==> e == Error::Crypto || e == Error::UnsupportedHashAlgo(0xFF),
            r matches Err(e) ==> (e == Error::Crypto <==> *self != HashAlgo::Other),
            r matches Ok(d) ==> d@.len() == (if *self == HashAlgo::Sha256 {
                32int
            } else {
                16int
            }),
    {
        match self {
            HashAlgo::Sha256 => {
                let d = match key {
                    Some(k) => hmac_sha256(k, buffer),
                    None => sha256(buffer),
                };
                match d {
                    Ok(d) => Ok(array_to_vec(&d)),
                    Err(_) => Err(Error::Crypto),
                }
            },
            HashAlgo::Md5 => {
                let d = match key {
                    Some(k) => hmac_md5(k, buffer),
                    None => md5(buffer),
                };
                match d {
                    Ok(d) => Ok(array_to_vec(&d)),
                    Err(_) => Err(Error::Crypto),
                }
            },
            HashAlgo::Other => Err(Error::UnsupportedHashAlgo(0xFF)),
        }
    }
}

/// The HMAC-SHA256 of `data` under `key`, as a 32-byte array.
pub fn hmac_sha256_array(key: &[u8], data: &[u8]) -> (r: Result<[u8; 32], Error>)
    requires
        key@.len() <= MAX_HMAC_KEY_LEN,
    ensures
        r matches Ok(d) ==> d@ == hmac_sha256_of(key@, data@),
        r matches Err(e) ==> e == Error::Crypto,
{
    match hmac_sha256(key, data) {
        Ok(d) => Ok(d),
        Err(_) => Err(Error::Crypto),
    }
}

} // verus!

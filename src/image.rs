//! What all signed images share: an opaque-or-decoded body and the two-pass
//! signing protocol (size first, then signature).
use vstd::prelude::*;

use crate::error::{Error, StateIssue};
use crate::hash::{key_ok, key_view};

verus! {

/// A body that is either an opaque encrypted blob or a decoded value.
#[derive(Debug)]
pub enum EncryptedOr<T> {
    Encrypted(Vec<u8>),
    Plain(T),
}

impl<T> EncryptedOr<T> {
    pub fn is_encrypted(&self) -> (r: bool)
        ensures
            r == self is Encrypted,
    {
        match self {
            EncryptedOr::Encrypted(_) => true,
            EncryptedOr::Plain(_) => false,
        }
    }

    pub fn is_plain(&self) -> (r: bool)
        ensures
            r == self is Plain,
    {
        match self {
            EncryptedOr::Encrypted(_) => false,
            EncryptedOr::Plain(_) => true,
        }
    }
}

/// The length of every signature field.
pub const SIGNATURE_SIZE: usize = 32;

/// An image that is signed in two passes: its segment size is computed from its
/// content and stored, then its signature is computed over its encoding and stored.
pub trait AsImage {
    /// The computed segment size fits in the header's `u32`.
    spec fn size_fits(&self) -> bool;

    /// The segment size that the content calls for.
    spec fn spec_segment_size(&self) -> u32;

    /// The segment size stored in the header.
    spec fn stored_segment_size(&self) -> u32;

    /// The stored signature.
    spec fn stored_signature(&self) -> Seq<u8>;

    /// A signature can be computed with this key (only a failure inside the
    /// cryptographic library can then stop it).
    spec fn signature_ready(&self, key: Option<Seq<u8>>) -> bool;

    /// The signature that the content and the key call for.
    spec fn signature_of(&self, key: Option<Seq<u8>>) -> Seq<u8>;

    /// The error that signing fails with when it is not ready.
    spec fn signature_error(&self, key: Option<Seq<u8>>) -> Error;

    /// `self` and `other` agree on everything but the stored signature.
    spec fn same_but_signature(&self, other: &Self) -> bool;

    /// `self` and `other` agree on everything but the stored segment size (and what
    /// the image derives from it).
    spec fn same_but_size(&self, other: &Self) -> bool;

    fn build_segment_size(&self) -> (r: u32)
        requires
            self.size_fits(),
        ensures
            r == self.spec_segment_size(),
    ;

    fn set_segment_size(&mut self, size: u32)
        ensures
            final(self).stored_segment_size() == size,
            final(self).spec_segment_size() == old(self).spec_segment_size(),
            final(self).size_fits() == old(self).size_fits(),
            final(self).stored_signature() == old(self).stored_signature(),
            final(self).same_but_size(old(self)),
    ;

    fn build_signature(&self, key: Option<&[u8]>) -> (r: Result<Vec<u8>, Error>)
        requires
            key_ok(key),
        ensures
            r matches Ok(sig) ==> sig@ == self.signature_of(key_view(key)),
            !self.signature_ready(key_view(key)) ==> r == Err::<Vec<u8>, Error>(
                self.signature_error(key_view(key)),
            ),
            r matches Err(e) ==> (e == Error::Crypto <==> self.signature_ready(key_view(key))),
            r matches Err(e) ==> e != Error::InvalidState(StateIssue::SignatureLength),
    ;

    fn set_signature(&mut self, signature: &[u8])
        requires
            signature@.len() == SIGNATURE_SIZE,
        ensures
            final(self).stored_signature() == signature@,
            final(self).stored_segment_size() == old(self).stored_segment_size(),
            final(self).spec_segment_size() == old(self).spec_segment_size(),
            final(self).size_fits() == old(self).size_fits(),
            final(self).same_but_signature(old(self)),
    ;
}

/// The signature of `image` under `key`.
pub fn build_default_signature<I: AsImage>(image: &I, key: Option<&[u8]>) -> (r: Result<
    Vec<u8>,
    Error,
>)
    requires
        key_ok(key),
    ensures
        r matches Ok(sig) ==> sig@ == image.signature_of(key_view(key)),
        !image.signature_ready(key_view(key)) ==> r == Err::<Vec<u8>, Error>(
            image.signature_error(key_view(key)),
        ),
        r matches Err(e) ==> (e == Error::Crypto <==> image.signature_ready(key_view(key))),
        r matches Err(e) ==> e != Error::InvalidState(StateIssue::SignatureLength),
{
    image.build_signature(key)
}

/// Computes the signature of `image` under `key` and stores it. A signature whose
/// length differs from the signature field is refused and nothing is stored.
pub fn set_default_signature<I: AsImage>(image: &mut I, key: Option<&[u8]>) -> (r: Result<
    (),
    Error,
>)
    requires
        key_ok(key),
    ensures
        r is Ok ==> final(image).stored_signature() == old(image).signature_of(key_view(key)),
        r is Ok ==> old(image).signature_of(key_view(key)).len() == SIGNATURE_SIZE,
        r is Ok ==> final(image).stored_segment_size() == old(image).stored_segment_size(),
        final(image).spec_segment_size() == old(image).spec_segment_size(),
        old(image).signature_ready(key_view(key)) && old(image).signature_of(key_view(key)).len()
            != SIGNATURE_SIZE ==> (r == Err::<(), Error>(Error::InvalidState(
            StateIssue::SignatureLength)) || r == Err::<(), Error>(Error::Crypto)),
        !old(image).signature_ready(key_view(key)) ==> r == Err::<(), Error>(
            old(image).signature_error(key_view(key)),
        ),
        old(image).signature_ready(key_view(key)) && old(image).signature_of(key_view(key)).len()
            == SIGNATURE_SIZE ==> (r is Ok || r == Err::<(), Error>(Error::Crypto)),
        r == Err::<(), Error>(Error::InvalidState(StateIssue::SignatureLength)) ==> old(
            image,
        ).signature_ready(key_view(key)) && old(image).signature_of(key_view(key)).len()
            != SIGNATURE_SIZE,
        r is Ok ==> final(image).same_but_signature(old(image)),
        r is Err ==> *final(image) == *old(image),
{
    let signature = build_default_signature(&*image, key)?;
    if signature.len() != SIGNATURE_SIZE {
        return Err(Error::InvalidState(StateIssue::SignatureLength));
    }
    image.set_signature(signature.as_slice());
    Ok(())
}

/// The segment size that the content of `image` calls for.
pub fn build_segment_size<I: AsImage>(image: &I) -> (r: u32)
    requires
        image.size_fits(),
    ensures
        r == image.spec_segment_size(),
{
    image.build_segment_size()
}

/// Stores in the header the segment size that the content calls for.
pub fn set_default_segment_size<I: AsImage>(image: &mut I)
    requires
        old(image).size_fits(),
    ensures
        final(image).stored_segment_size() == old(image).spec_segment_size(),
        final(image).spec_segment_size() == old(image).spec_segment_size(),
        final(image).same_but_size(old(image)),
{
    let size = image.build_segment_size();
    image.set_segment_size(size);
}

} // verus!

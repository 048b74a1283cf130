//! Signatures over a candidate mutation, checked with Ed25519.

use sodiumoxide::crypto::sign;
use vstd::prelude::*;

verus! {

/// Number of bytes in a public key.
pub const PUBLIC_KEY_BYTES: usize = 32;

/// Number of bytes in a detached signature.
pub const SIGNATURE_BYTES: usize = 64;

/// One entry of the evidence handed in with a candidate mutation: a public
/// key and the signature that its holder made over the candidate's bytes.
#[derive(Clone, Copy, Debug, PartialEq, Eq)]
pub struct KeyAndSignature {
    /// Public key of the signer.
    pub key: [u8; PUBLIC_KEY_BYTES],
    /// Detached signature over the candidate's bytes.
    pub signature: [u8; SIGNATURE_BYTES],
}

/// What a [`KeyAndSignature`] holds, as sequences of bytes.
pub struct SignedEntryView {
    pub key: Seq<u8>,
    pub signature: Seq<u8>,
}

impl View for KeyAndSignature {
    type V = SignedEntryView;

    open spec fn view(&self) -> SignedEntryView {
        SignedEntryView { key: self.key@, signature: self.signature@ }
    }
}

/// The verdict of Ed25519 verification on a detached signature, a message
/// and a public key. It depends on these three alone.
pub uninterp spec fn detached_signature_valid(
    signature: Seq<u8>,
    message: Seq<u8>,
    public_key: Seq<u8>,
) -> bool;

/// A signature is well formed when it has the length of a detached signature
/// and the three highest bits of its last byte are clear. No other sequence
/// of bytes is the encoding of a signature.
pub open spec fn signature_well_formed(signature: Seq<u8>) -> bool {
    signature.len() == SIGNATURE_BYTES && signature[SIGNATURE_BYTES - 1] & 0xE0 == 0
}

/// An entry endorses a message when its signature is well formed and
/// verifies over the message under the entry's key.
pub open spec fn endorses(entry: SignedEntryView, message: Seq<u8>) -> bool {
    signature_well_formed(entry.signature) && detached_signature_valid(
        entry.signature,
        message,
        entry.key,
    )
}

/// Calls `sodiumoxide::crypto::sign::verify_detached`, after
/// `Signature::from_bytes` has turned the bytes into a signature.
///
/// Not proved: that the result is the verdict of Ed25519 verification on
/// these bytes. `from_bytes` accepts exactly the well-formed signatures, so
/// under the precondition the call is always made.
#[verifier::external_body]
fn verify_detached(
    signature: &[u8; SIGNATURE_BYTES],
    message: &[u8],
    public_key: &[u8; PUBLIC_KEY_BYTES],
) -> (valid: bool)
    requires
        signature_well_formed(signature@),
    ensures
        valid == detached_signature_valid(signature@, message@, public_key@),
{
    match sign::Signature::from_bytes(signature) {
        Ok(parsed) => sign::verify_detached(&parsed, message, &sign::PublicKey(*public_key)),
        Err(_) => false,
    }
}

/// Checks one entry of the evidence against the bytes that were signed.
pub fn verify_entry(entry: &KeyAndSignature, message: &[u8]) -> (valid: bool)
    ensures
        valid == endorses(entry@, message@),
{
    if entry.signature[SIGNATURE_BYTES - 1] & 0xE0 != 0 {
        false
    } else {
        verify_detached(&entry.signature, message, &entry.key)
    }
}

} // verus!

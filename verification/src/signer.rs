//! Signing of serialized events with Ed25519, and checking of signed events.

use ed25519_dalek::{Signature, Signer, SigningKey, Verifier, VerifyingKey};
use rand_core::{OsRng, RngCore};
use vstd::prelude::*;
use vstd::string::StringSliceAdditionalSpecFns;

verus! {

/// The public key (compressed point, 32 bytes) of the Ed25519 key with secret `secret`.
pub uninterp spec fn ed25519_public_key(secret: Seq<u8>) -> Seq<u8>;

/// The Ed25519 signature (64 bytes) that the key with secret `secret` gives `message`.
pub uninterp spec fn ed25519_signature(secret: Seq<u8>, message: Seq<u8>) -> Seq<u8>;

/// Whether `signature` is a valid Ed25519 signature of `message` under `public_key`; false
/// when `public_key` is no point of the curve.
pub uninterp spec fn ed25519_verifies(public_key: Seq<u8>, message: Seq<u8>, signature: Seq<u8>) -> bool;

/// Draws a fresh 32-byte secret from the operating system's random source
/// (`rand_core::OsRng::fill_bytes`). Only the length is stated: the bytes are random. The
/// source panics when the operating system cannot supply random bytes.
#[verifier::external_body]
fn random_secret() -> (r: Vec<u8>)
    ensures
        r@.len() == 32,
{
    let mut secret = [0u8; 32];
    OsRng.fill_bytes(&mut secret);
    secret.to_vec()
}

/// The public key of a secret (`SigningKey::from_bytes`, then `verifying_key().to_bytes()`):
/// 32 bytes, fixed by the secret.
#[verifier::external_body]
fn public_key_of(secret: &Vec<u8>) -> (r: Vec<u8>)
    requires
        secret@.len() == 32,
    ensures
        r@ == ed25519_public_key(secret@),
        r@.len() == 32,
{
    let bytes: [u8; 32] = secret.as_slice().try_into().unwrap();
    SigningKey::from_bytes(&bytes).verifying_key().to_bytes().to_vec()
}

/// Signs `message` with the key of `secret` (`Signer::sign` of `SigningKey`, then
/// `Signature::to_bytes`). Ed25519 signing is deterministic, so the 64 bytes are fixed by the
/// secret and the message; as the crate's documentation shows, the signature verifies under
/// the key's public key.
#[verifier::external_body]
fn sign_bytes(secret: &Vec<u8>, message: &[u8]) -> (r: Vec<u8>)
    requires
        secret@.len() == 32,
    ensures
        r@ == ed25519_signature(secret@, message@),
        r@.len() == 64,
        ed25519_verifies(ed25519_public_key(secret@), message@, r@),
{
    let bytes: [u8; 32] = secret.as_slice().try_into().unwrap();
    SigningKey::from_bytes(&bytes).sign(message).to_bytes().to_vec()
}

/// Checks a signature (`VerifyingKey::from_bytes`, `Signature::from_bytes`, then
/// `Verifier::verify`); a public key that is no curve point fails.
#[verifier::external_body]
fn verify_bytes(public_key: &[u8], message: &[u8], signature: &[u8]) -> (r: bool)
    requires
        public_key@.len() == 32,
        signature@.len() == 64,
    ensures
        r == ed25519_verifies(public_key@, message@, signature@),
{
    let key_bytes: [u8; 32] = public_key.try_into().unwrap();
    let signature_bytes: [u8; 64] = signature.try_into().unwrap();
    match VerifyingKey::from_bytes(&key_bytes) {
        Ok(key) => key.verify(message, &Signature::from_bytes(&signature_bytes)).is_ok(),
        Err(_) => false,
    }
}

/// A serialized event with its signature and the public key to check it with.
#[derive(Debug)]
pub struct SignedEvent {
    pub event_json: String,
    pub signature: Vec<u8>,
    pub public_key: Vec<u8>,
}

/// The bytes that are signed for a serialized event: its UTF-8 encoding.
pub open spec fn signed_bytes(event_json: Seq<char>) -> Seq<u8> {
    vstd::utf8::encode_utf8(event_json)
}

/// A signed event is accepted: a 32-byte key, a 64-byte signature, and the signature
/// verifies for the event's bytes.
pub open spec fn signed_event_valid(e: SignedEvent) -> bool {
    &&& e.public_key@.len() == 32
    &&& e.signature@.len() == 64
    &&& ed25519_verifies(e.public_key@, signed_bytes(e.event_json@), e.signature@)
}

/// Signs events with one Ed25519 key, held as its 32 secret bytes.
pub struct EventSigner {
    secret: Vec<u8>,
}

impl EventSigner {
    /// The secret bytes of the key.
    pub closed spec fn secret(&self) -> Seq<u8> {
        self.secret@
    }

    #[verifier::type_invariant]
    closed spec fn wf(&self) -> bool {
        self.secret@.len() == 32
    }

    /// A signer with a fresh random key.
    pub fn new() -> (r: Self)
        ensures
            r.secret().len() == 32,
    {
        EventSigner { secret: random_secret() }
    }

    /// Signs a serialized event: the result carries the event, its signature under this key and
    /// this key's public half, and passes `verify`.
    pub fn sign(&self, event_json: String) -> (r: SignedEvent)
        ensures
            r.event_json@ == event_json@,
            r.signature@ == ed25519_signature(self.secret(), signed_bytes(event_json@)),
            r.public_key@ == ed25519_public_key(self.secret()),
            signed_event_valid(r),
    {
        proof {
            use_type_invariant(self);
        }
        let signature = sign_bytes(&self.secret, event_json.as_str().as_bytes());
        let public_key = public_key_of(&self.secret);
        SignedEvent { event_json, signature, public_key }
    }

    /// Checks a signed event; a key or a signature of the wrong length fails.
    pub fn verify(signed: &SignedEvent) -> (r: bool)
        ensures
            r == signed_event_valid(*signed),
    {
        if signed.public_key.len() != 32 || signed.signature.len() != 64 {
            return false;
        }
        verify_bytes(signed.public_key.as_slice(), signed.event_json.as_str().as_bytes(), signed.signature.as_slice())
    }

    /// The public half of this signer's key.
    pub fn verifying_key_bytes(&self) -> (r: Vec<u8>)
        ensures
            r@ == ed25519_public_key(self.secret()),
    {
        proof {
            use_type_invariant(self);
        }
        public_key_of(&self.secret)
    }
}

} // verus!

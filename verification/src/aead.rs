//! XChaCha20-Poly1305 sealing and opening of single buffers.

use vstd::prelude::*;
use chacha20poly1305::aead::{Aead, KeyInit, Payload};
use chacha20poly1305::{XChaCha20Poly1305, XNonce};

use crate::error::{Error, Result};
use crate::key::{Key, KEY_LEN};
use crate::random::fill_random;

verus! {

pub const NONCE_LEN: usize = 24;

pub const TAG_LEN: usize = 16;

/// The ciphertext (with its 16-byte tag appended) that XChaCha20-Poly1305
/// produces for `msg` under `key`, `nonce` and associated data `aad`.
pub uninterp spec fn xchacha20poly1305_seal(key: Seq<u8>, nonce: Seq<u8>, aad: Seq<u8>, msg: Seq<u8>) -> Seq<u8>;

/// What XChaCha20-Poly1305 decryption yields for `ct` (ciphertext with its
/// tag appended): the plaintext when the tag authenticates, else nothing.
pub uninterp spec fn xchacha20poly1305_open(key: Seq<u8>, nonce: Seq<u8>, aad: Seq<u8>, ct: Seq<u8>) -> Option<Seq<u8>>;

/// The longest message that can be sealed: block 0 of the ChaCha20
/// keystream keys Poly1305, so the message has the `u32::MAX - 1` blocks of
/// 64 bytes that follow it.
pub const MAX_SEALABLE_LEN: u64 = 274_877_906_816;

/// Messages that fit in the keystream blocks left after the Poly1305 key.
pub open spec fn sealable_len(len: nat) -> bool {
    len <= (u32::MAX as nat - 1) * 64
}

/// A seal of `msg` that opens back to `msg` and carries a 16-byte tag.
pub open spec fn seal_round_trips(key: Seq<u8>, nonce: Seq<u8>, aad: Seq<u8>, msg: Seq<u8>) -> bool {
    let ct = xchacha20poly1305_seal(key, nonce, aad, msg);
    &&& ct.len() == msg.len() + TAG_LEN
    &&& xchacha20poly1305_open(key, nonce, aad, ct) == Some(msg)
}

/// Calls `<XChaCha20Poly1305 as Aead>::encrypt` with the key, nonce, message
/// and associated data. Only messages that fit in the keystream are handed
/// over: on a longer one whose block count still passes the crate's own
/// length check, its keystream step panics. The claims, for the messages
/// admitted: the call succeeds and returns the named seal, which is the
/// message length plus a 16-byte tag long and which the crate's decryption
/// opens back to the message.
#[verifier::external_body]
fn xchacha_encrypt(key: &[u8; KEY_LEN], nonce: &[u8; NONCE_LEN], aad: &[u8], msg: &[u8]) -> (r: Option<Vec<u8>>)
    requires
        sealable_len(msg@.len()),
    ensures
        r is Some,
        r matches Some(ct) ==> {
            &&& ct@ == xchacha20poly1305_seal(key@, nonce@, aad@, msg@)
            &&& seal_round_trips(key@, nonce@, aad@, msg@)
        },
{
    let cipher = XChaCha20Poly1305::new(key.into());
    cipher.encrypt(XNonce::from_slice(nonce), Payload { msg, aad }).ok()
}

/// Calls `<XChaCha20Poly1305 as Aead>::decrypt` on ciphertext-with-tag `ct`.
/// Only a tag and a message that fits in the keystream are handed over (on
/// a longer message that authenticates, the crate's keystream step panics).
/// The claims: the result is the named opening; a plaintext comes back only
/// when `ct` is exactly its seal, and then `ct` is 16 bytes longer than it.
#[verifier::external_body]
fn xchacha_decrypt(key: &[u8; KEY_LEN], nonce: &[u8; NONCE_LEN], aad: &[u8], ct: &[u8]) -> (r: Option<Vec<u8>>)
    requires
        ct@.len() >= TAG_LEN,
        sealable_len((ct@.len() - TAG_LEN) as nat),
    ensures
        match r {
            Some(pt) => {
                &&& xchacha20poly1305_open(key@, nonce@, aad@, ct@) == Some(pt@)
                &&& xchacha20poly1305_seal(key@, nonce@, aad@, pt@) == ct@
                &&& ct@.len() == pt@.len() + TAG_LEN
            },
            None => xchacha20poly1305_open(key@, nonce@, aad@, ct@) is None,
        },
{
    let cipher = XChaCha20Poly1305::new(key.into());
    cipher.decrypt(XNonce::from_slice(nonce), Payload { msg: ct, aad }).ok()
}

/// A fresh random 24-byte nonce from the operating system.
pub fn random_nonce() -> (r: Result<[u8; NONCE_LEN]>)
    ensures
        r is Err ==> r matches Err(Error::Rng(_)),
{
    let mut nonce = [0u8; NONCE_LEN];
    match fill_random(&mut nonce) {
        Ok(()) => Ok(nonce),
        Err(e) => Err(Error::Rng(e)),
    }
}

/// Encrypt `plaintext` with the given key, nonce, and associated data.
/// Returns `ciphertext || tag` (16-byte tag appended); a plaintext longer
/// than `MAX_SEALABLE_LEN` is refused with `Error::Aead`.
pub fn encrypt(key: &Key, nonce: &[u8; NONCE_LEN], aad: &[u8], plaintext: &[u8]) -> (r: Result<Vec<u8>>)
    ensures
        r is Ok <==> sealable_len(plaintext@.len()),
        r is Err ==> r matches Err(Error::Aead),
        r matches Ok(ct) ==> {
            &&& ct@ == xchacha20poly1305_seal(key@, nonce@, aad@, plaintext@)
            &&& seal_round_trips(key@, nonce@, aad@, plaintext@)
        },
{
    if plaintext.len() as u64 > MAX_SEALABLE_LEN {
        return Err(Error::Aead);
    }
    match xchacha_encrypt(key.as_bytes(), nonce, aad, plaintext) {
        Some(ct) => Ok(ct),
        None => Err(Error::Aead),
    }
}

/// Decrypt `ciphertext_with_tag` (= ciphertext || 16-byte tag).
/// Returns the plaintext on success, `Error::Aead` on any authentication
/// failure, and on a ciphertext too long to have been sealed.
pub fn decrypt(key: &Key, nonce: &[u8; NONCE_LEN], aad: &[u8], ciphertext_with_tag: &[u8]) -> (r: Result<Vec<u8>>)
    ensures
        ciphertext_with_tag@.len() < TAG_LEN ==> (r matches Err(Error::InvalidLength { expected, got })
            && expected == TAG_LEN && got == ciphertext_with_tag@.len()),
        ciphertext_with_tag@.len() >= TAG_LEN && !sealable_len((ciphertext_with_tag@.len() - TAG_LEN) as nat)
            ==> r matches Err(Error::Aead),
        ciphertext_with_tag@.len() >= TAG_LEN && sealable_len((ciphertext_with_tag@.len() - TAG_LEN) as nat)
            ==> match r {
            Ok(pt) => xchacha20poly1305_open(key@, nonce@, aad@, ciphertext_with_tag@) == Some(pt@),
            Err(e) => e is Aead && xchacha20poly1305_open(key@, nonce@, aad@, ciphertext_with_tag@) is None,
        },
        r matches Ok(pt) ==> {
            &&& xchacha20poly1305_seal(key@, nonce@, aad@, pt@) == ciphertext_with_tag@
            &&& ciphertext_with_tag@.len() == pt@.len() + TAG_LEN
        },
{
    if ciphertext_with_tag.len() < TAG_LEN {
        return Err(Error::InvalidLength { expected: TAG_LEN, got: ciphertext_with_tag.len() });
    }
    if (ciphertext_with_tag.len() - TAG_LEN) as u64 > MAX_SEALABLE_LEN {
        return Err(Error::Aead);
    }
    match xchacha_decrypt(key.as_bytes(), nonce, aad, ciphertext_with_tag) {
        Some(pt) => Ok(pt),
        None => Err(Error::Aead),
    }
}

} // verus!

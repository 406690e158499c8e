//! Keyfiles: a second factor whose BLAKE2b-256 digest is appended to the
//! password before key derivation.

use vstd::prelude::*;
use blake2::digest::consts::U32;
use blake2::{Blake2b, Digest};

use crate::error::{Error, Result};
use crate::random::fill_random;

verus! {

pub const DIGEST_LEN: usize = 32;

/// Default size in bytes of a generated keyfile.
pub const DEFAULT_SIZE: usize = 64;

/// Largest keyfile that `keyfile-gen` creates.
pub const MAX_SIZE: usize = 1048576;

/// The BLAKE2b digest with a 32-byte output of `data`.
pub uninterp spec fn blake2b_256(data: Seq<u8>) -> Seq<u8>;

/// Calls `Blake2b::<U32>::digest` on `data`. The claim: the 32 bytes it
/// returns are the named digest of `data`.
#[verifier::external_body]
fn blake2b_256_digest(data: &[u8]) -> (d: [u8; DIGEST_LEN])
    ensures
        d@ == blake2b_256(data@),
{
    let out = Blake2b::<U32>::digest(data);
    let mut d = [0u8; DIGEST_LEN];
    d.copy_from_slice(&out);
    d
}

/// The 32-byte BLAKE2b-256 digest of a keyfile's whole content.
pub fn digest_content(content: &[u8]) -> (d: [u8; DIGEST_LEN])
    ensures
        d@ == blake2b_256(content@),
{
    blake2b_256_digest(content)
}

/// The Argon2 input for `password` with an optional keyfile digest.
pub open spec fn combined_input(password: Seq<u8>, digest: Option<Seq<u8>>) -> Seq<u8> {
    match digest {
        None => password,
        Some(d) => password + d,
    }
}

/// Combine password bytes with an optional keyfile digest into the Argon2
/// input. Without a digest the password comes back byte for byte, so files
/// encrypted before keyfiles existed keep working.
pub fn combine(password: &[u8], digest: Option<&[u8; DIGEST_LEN]>) -> (out: Vec<u8>)
    ensures
        out@ == combined_input(
            password@,
            match digest {
                None => None,
                Some(d) => Some(d@),
            },
        ),
{
    let mut out: Vec<u8> = Vec::new();
    let mut i: usize = 0;
    while i < password.len()
        invariant
            i <= password@.len(),
            out@ == password@.subrange(0, i as int),
        decreases password@.len() - i,
    {
        out.push(password[i]);
        i = i + 1;
        assert(out@ =~= password@.subrange(0, i as int));
    }
    assert(out@ =~= password@);
    match digest {
        None => out,
        Some(d) => {
            let mut j: usize = 0;
            while j < DIGEST_LEN
                invariant
                    j <= DIGEST_LEN,
                    out@ == password@ + d@.subrange(0, j as int),
                decreases DIGEST_LEN - j,
            {
                out.push(d[j]);
                j = j + 1;
                assert(out@ =~= password@ + d@.subrange(0, j as int));
            }
            assert(d@.subrange(0, DIGEST_LEN as int) =~= d@);
            out
        },
    }
}

/// A keyfile size that `keyfile-gen` accepts: 1 byte to 1 MiB.
pub fn keyfile_size_ok(size: usize) -> (ok: bool)
    ensures
        ok == (1 <= size <= MAX_SIZE),
{
    size != 0 && size <= MAX_SIZE
}

/// `size` fresh random bytes from the operating system: the content of a
/// new keyfile.
pub fn random_keyfile(size: usize) -> (r: Result<Vec<u8>>)
    requires
        1 <= size <= MAX_SIZE,
    ensures
        r matches Ok(bytes) ==> bytes@.len() == size,
        r is Err ==> r matches Err(Error::Rng(_)),
{
    let mut bytes = vec![0u8; size];
    match fill_random(bytes.as_mut_slice()) {
        Ok(()) => Ok(bytes),
        Err(e) => Err(Error::Rng(e)),
    }
}

/// Overwrite every byte with zero (best effort against copies lingering in
/// memory).
pub fn wipe(bytes: &mut Vec<u8>)
    ensures
        final(bytes)@.len() == old(bytes)@.len(),
        forall|i: int| 0 <= i < final(bytes)@.len() ==> final(bytes)@[i] == 0,
{
    let n = bytes.len();
    let mut i: usize = 0;
    while i < n
        invariant
            n == bytes@.len(),
            n == old(bytes)@.len(),
            i <= n,
            forall|k: int| 0 <= k < i ==> bytes@[k] == 0,
        decreases n - i,
    {
        bytes.set(i, 0);
        i = i + 1;
    }
}

} // verus!

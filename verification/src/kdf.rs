//! Argon2id password-based key derivation.

use vstd::prelude::*;
use argon2::{Algorithm, Argon2, Params, Version};

use crate::error::{Error, Result};
use crate::key::{Key, KEY_LEN};
use crate::random::fill_random;

verus! {

pub const SALT_LEN: usize = 16;

/// Argon2 cost parameters: memory in KiB, number of passes, lanes.
#[derive(Clone, Copy, Debug)]
pub struct KdfParams {
    pub memory_kib: u32,
    pub iterations: u32,
    pub parallelism: u32,
}

impl KdfParams {
    /// m = 256 MiB, t = 3, p = 4.
    pub fn default_strong() -> (p: Self)
        ensures
            p.memory_kib == 256 * 1024,
            p.iterations == 3,
            p.parallelism == 4,
    {
        Self { memory_kib: 256 * 1024, iterations: 3, parallelism: 4 }
    }

    /// m = 8 MiB, t = 1, p = 1: cheap enough for test suites.
    pub fn fast_for_tests() -> (p: Self)
        ensures
            p.memory_kib == 8 * 1024,
            p.iterations == 1,
            p.parallelism == 1,
    {
        Self { memory_kib: 8 * 1024, iterations: 1, parallelism: 1 }
    }
}

/// The 32-byte Argon2id (version 0x13) hash of `password` under `salt` with
/// the given memory, time and lane costs.
pub uninterp spec fn argon2id_hash(password: Seq<u8>, salt: Seq<u8>, memory_kib: u32, iterations: u32, parallelism: u32) -> Seq<u8>;

/// The cost parameters that `argon2::Params::new` accepts: at least 8 KiB
/// and 8 KiB per lane of memory, at least one pass, 1 to 2^24 - 1 lanes.
pub open spec fn argon2_params_ok(memory_kib: u32, iterations: u32, parallelism: u32) -> bool {
    &&& memory_kib >= 8
    &&& memory_kib >= 8 * parallelism
    &&& iterations >= 1
    &&& 1 <= parallelism <= 0xFF_FFFF
}

/// Exactly the inputs on which `derive_key` succeeds.
pub open spec fn derivable(password: Seq<u8>, params: KdfParams) -> bool {
    &&& argon2_params_ok(params.memory_kib, params.iterations, params.parallelism)
    &&& password.len() <= u32::MAX
}

/// Calls `argon2::Params::new(m, t, p, Some(32))`, then
/// `Argon2::new(Algorithm::Argon2id, Version::V0x13, params)` and its
/// `hash_password_into` into a 32-byte buffer. The claims, from the crate's
/// source: the parameter check fails exactly outside `argon2_params_ok`, the
/// hashing fails exactly for passwords longer than `u32::MAX` bytes (the
/// 16-byte salt and the 32-byte output pass its other checks), and on success
/// the buffer holds the named hash. `requires` leaves out lane counts whose
/// `p_cost * 8` overflows inside `Params::new`.
#[verifier::external_body]
fn argon2id_hash_into(password: &[u8], salt: &[u8; SALT_LEN], memory_kib: u32, iterations: u32, parallelism: u32) -> (r: core::result::Result<[u8; KEY_LEN], argon2::Error>)
    requires
        parallelism <= 0x1FFF_FFFF,
    ensures
        r is Ok <==> (argon2_params_ok(memory_kib, iterations, parallelism) && password@.len() <= u32::MAX),
        r matches Ok(out) ==> out@ == argon2id_hash(password@, salt@, memory_kib, iterations, parallelism),
{
    let params = Params::new(memory_kib, iterations, parallelism, Some(KEY_LEN))?;
    let argon = Argon2::new(Algorithm::Argon2id, Version::V0x13, params);
    let mut out = [0u8; KEY_LEN];
    argon.hash_password_into(password, salt, &mut out)?;
    Ok(out)
}

/// A fresh random 16-byte salt from the operating system.
pub fn random_salt() -> (r: Result<[u8; SALT_LEN]>)
    ensures
        r is Err ==> r matches Err(Error::Rng(_)),
{
    let mut salt = [0u8; SALT_LEN];
    match fill_random(&mut salt) {
        Ok(()) => Ok(salt),
        Err(e) => Err(Error::Rng(e)),
    }
}

/// Derive the 32-byte file key from the password with Argon2id.
pub fn derive_key(password: &[u8], salt: &[u8; SALT_LEN], params: KdfParams) -> (r: Result<Key>)
    requires
        params.parallelism <= 0x1FFF_FFFF,
    ensures
        r is Ok <==> derivable(password@, params),
        r is Err ==> r matches Err(Error::Kdf(_)),
        r matches Ok(k) ==> k@ == argon2id_hash(password@, salt@, params.memory_kib, params.iterations, params.parallelism),
{
    match argon2id_hash_into(password, salt, params.memory_kib, params.iterations, params.parallelism) {
        Ok(out) => {
            let mut out = out;
            let key = Key::from_bytes(out);
            // Wipe the stack copy of the key material.
            let mut i: usize = 0;
            while i < KEY_LEN
                invariant
                    i <= KEY_LEN,
                decreases KEY_LEN - i,
            {
                out[i] = 0;
                i = i + 1;
            }
            Ok(key)
        },
        Err(e) => Err(Error::Kdf(e)),
    }
}

} // verus!

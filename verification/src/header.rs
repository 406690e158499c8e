//! The fixed 64-byte `.bml` file header.
//!
//! Layout: magic "BML1" (0..4), version (4), flags (5), reserved (6..8),
//! Argon2 memory in KiB as big-endian u32 (8..12), iterations (12),
//! parallelism (13), reserved (14..16), salt (16..32), STREAM nonce prefix
//! (32..51), reserved (51..64).

use vstd::prelude::*;

use crate::error::{Error, Result};
use crate::kdf::{KdfParams, SALT_LEN};
use crate::random::fill_random;

verus! {

/// The magic bytes "BML1".
pub const MAGIC: [u8; 4] = [0x42, 0x4D, 0x4C, 0x31];

pub const VERSION: u8 = 1;

pub const HEADER_LEN: usize = 64;

pub const NONCE_PREFIX_LEN: usize = 19;

pub const CHUNK_SIZE: usize = 65536;

pub const FLAG_DIRECTORY: u8 = 0b0000_0001;

pub const FLAG_MASTER_KEY: u8 = 0b0000_0010;

pub const FLAG_KEYFILE: u8 = 0b0000_0100;

/// The payload is gzip-compressed before encryption (directories only).
pub const FLAG_COMPRESSED: u8 = 0b0000_1000;

pub const KNOWN_FLAGS: u8 = 0b0000_1111;

pub const MAX_MEMORY_KIB: u32 = 4194304;

pub const MAX_ITERATIONS: u32 = 64;

pub const MAX_PARALLELISM: u32 = 64;

#[derive(Clone, Debug)]
pub struct Header {
    pub flags: u8,
    pub kdf_params: KdfParams,
    pub salt: [u8; SALT_LEN],
    pub nonce_prefix: [u8; NONCE_PREFIX_LEN],
}

/// No bit outside the four known flags is set.
pub open spec fn known_flags(flags: u8) -> bool {
    flags & !KNOWN_FLAGS == 0
}

/// Argon2 costs that a header may carry.
pub open spec fn params_in_range(p: KdfParams) -> bool {
    &&& 1 <= p.memory_kib <= MAX_MEMORY_KIB
    &&& 1 <= p.iterations <= MAX_ITERATIONS
    &&& 1 <= p.parallelism <= MAX_PARALLELISM
}

/// A header that `parse` accepts back from its own serialization.
pub open spec fn header_valid(h: Header) -> bool {
    known_flags(h.flags) && params_in_range(h.kdf_params)
}

/// Big-endian bytes of a `u32`.
pub open spec fn be32(x: u32) -> Seq<u8> {
    seq![(x / 0x100_0000) as u8, ((x / 0x1_0000) % 0x100) as u8, ((x / 0x100) % 0x100) as u8, (x % 0x100) as u8]
}

/// The `u32` whose big-endian bytes are `b[0..4]`.
pub open spec fn be32_value(b: Seq<u8>) -> u32 {
    (b[0] * 0x100_0000 + b[1] * 0x1_0000 + b[2] * 0x100 + b[3]) as u32
}

/// A cost stored in one byte, saturating at 255.
pub open spec fn saturate_u8(x: u32) -> u8 {
    if x < 255 {
        x as u8
    } else {
        255
    }
}

/// The 64 bytes that `serialize` writes for `h`.
pub open spec fn header_bytes(h: Header) -> Seq<u8> {
    MAGIC@ + seq![VERSION, h.flags, 0u8, 0u8] + be32(h.kdf_params.memory_kib) + seq![
        saturate_u8(h.kdf_params.iterations),
        saturate_u8(h.kdf_params.parallelism),
        0u8,
        0u8,
    ] + h.salt@ + h.nonce_prefix@ + Seq::new(13, |i: int| 0u8)
}

/// The message of the error that `parse` reports for `b`, if any.
pub open spec fn parse_error(b: Seq<u8>) -> Option<&'static str> {
    if b.subrange(0, 4) != MAGIC@ {
        Some("magic mismatch")
    } else if b[4] != VERSION {
        Some("unsupported version")
    } else if !known_flags(b[5]) {
        Some("unknown flag bits set")
    } else if !params_in_range(
        KdfParams { memory_kib: be32_value(b.subrange(8, 12)), iterations: b[12] as u32, parallelism: b[13] as u32 },
    ) {
        Some("Argon2 params out of range")
    } else {
        None
    }
}

/// `h` holds the fields that the bytes `b` encode.
pub open spec fn header_matches_bytes(h: Header, b: Seq<u8>) -> bool {
    &&& h.flags == b[5]
    &&& h.kdf_params == KdfParams {
        memory_kib: be32_value(b.subrange(8, 12)),
        iterations: b[12] as u32,
        parallelism: b[13] as u32,
    }
    &&& h.salt@ == b.subrange(16, 32)
    &&& h.nonce_prefix@ == b.subrange(32, 51)
}

/// The reserved bytes 6..8, 14..16 and 51..64 are zero.
pub open spec fn reserved_zero(b: Seq<u8>) -> bool {
    &&& b[6] == 0 && b[7] == 0 && b[14] == 0 && b[15] == 0
    &&& forall|i: int| 51 <= i < 64 ==> b[i] == 0
}

pub(crate) proof fn lemma_be32_round_trip(x: u32)
    ensures
        be32(x).len() == 4,
        be32_value(be32(x)) == x,
{
    let xi = x as int;
    assert(xi == (xi / 0x100_0000) * 0x100_0000 + ((xi / 0x1_0000) % 0x100) * 0x1_0000 + ((xi / 0x100)
        % 0x100) * 0x100 + xi % 0x100) by (nonlinear_arith)
        requires
            0 <= xi < 0x1_0000_0000,
    ;
}

proof fn lemma_be32_of_value(b: Seq<u8>)
    requires
        b.len() == 4,
    ensures
        be32(be32_value(b)) == b,
{
    let (b0, b1, b2, b3) = (b[0] as int, b[1] as int, b[2] as int, b[3] as int);
    let x = b0 * 0x100_0000 + b1 * 0x1_0000 + b2 * 0x100 + b3;
    assert(x / 0x100_0000 == b0 && (x / 0x1_0000) % 0x100 == b1 && (x / 0x100) % 0x100 == b2 && x
        % 0x100 == b3) by (nonlinear_arith)
        requires
            x == b0 * 0x100_0000 + b1 * 0x1_0000 + b2 * 0x100 + b3,
            0 <= b0 < 256,
            0 <= b1 < 256,
            0 <= b2 < 256,
            0 <= b3 < 256,
    ;
    assert(be32(be32_value(b)) =~= b);
}

impl Header {
    /// A header with the given flags and costs, a fresh random salt and a
    /// fresh random nonce prefix.
    pub fn new(flags: u8, kdf_params: KdfParams) -> (r: Result<Self>)
        ensures
            r matches Ok(h) ==> h.flags == flags && h.kdf_params == kdf_params,
            r is Err ==> r matches Err(Error::Rng(_)),
    {
        let mut salt = [0u8; SALT_LEN];
        match fill_random(&mut salt) {
            Ok(()) => {},
            Err(e) => return Err(Error::Rng(e)),
        }
        let mut nonce_prefix = [0u8; NONCE_PREFIX_LEN];
        match fill_random(&mut nonce_prefix) {
            Ok(()) => {},
            Err(e) => return Err(Error::Rng(e)),
        }
        Ok(Self { flags, kdf_params, salt, nonce_prefix })
    }

    /// The 64-byte encoding of the header; iteration and lane counts above
    /// 255 are stored as 255.
    pub fn serialize(&self) -> (out: [u8; HEADER_LEN])
        ensures
            out@ == header_bytes(*self),
    {
        let mut out = [0u8; HEADER_LEN];
        out[0] = MAGIC[0];
        out[1] = MAGIC[1];
        out[2] = MAGIC[2];
        out[3] = MAGIC[3];
        out[4] = VERSION;
        out[5] = self.flags;
        let m = self.kdf_params.memory_kib;
        out[8] = (m / 0x100_0000) as u8;
        out[9] = ((m / 0x1_0000) % 0x100) as u8;
        out[10] = ((m / 0x100) % 0x100) as u8;
        out[11] = (m % 0x100) as u8;
        out[12] = if self.kdf_params.iterations < 255 { self.kdf_params.iterations as u8 } else { 255 };
        out[13] = if self.kdf_params.parallelism < 255 { self.kdf_params.parallelism as u8 } else { 255 };
        let ghost fixed = out@;
        let mut i: usize = 0;
        while i < SALT_LEN
            invariant
                i <= SALT_LEN,
                out@.len() == HEADER_LEN,
                fixed.len() == HEADER_LEN,
                forall|k: int| 0 <= k < HEADER_LEN && !(16 <= k < 16 + i) ==> out@[k] == fixed[k],
                forall|k: int| 16 <= k < 16 + i ==> out@[k] == self.salt@[k - 16],
            decreases SALT_LEN - i,
        {
            out[16 + i] = self.salt[i];
            i = i + 1;
        }
        let ghost with_salt = out@;
        let mut j: usize = 0;
        while j < NONCE_PREFIX_LEN
            invariant
                j <= NONCE_PREFIX_LEN,
                out@.len() == HEADER_LEN,
                with_salt.len() == HEADER_LEN,
                forall|k: int| 16 <= k < 32 ==> with_salt[k] == self.salt@[k - 16],
                forall|k: int| 0 <= k < 16 || 51 <= k < HEADER_LEN ==> with_salt[k] == fixed[k],
                forall|k: int| 0 <= k < HEADER_LEN && !(32 <= k < 32 + j) ==> out@[k] == with_salt[k],
                forall|k: int| 32 <= k < 32 + j ==> out@[k] == self.nonce_prefix@[k - 32],
            decreases NONCE_PREFIX_LEN - j,
        {
            out[32 + j] = self.nonce_prefix[j];
            j = j + 1;
        }
        assert(forall|k: int| 16 <= k < 32 ==> with_salt[k] == self.salt@[k - 16]);
        let ghost hb = header_bytes(*self);
        assert(hb.len() == HEADER_LEN);
        assert forall|k: int| 0 <= k < HEADER_LEN implies out@[k] == hb[k] by {
            if k < 16 {
                assert(out@[k] == fixed[k]);
            } else if k < 32 {
                assert(out@[k] == with_salt[k]);
                assert(with_salt[k] == self.salt@[k - 16]);
            } else if k < 51 {
                assert(out@[k] == self.nonce_prefix@[k - 32]);
            } else {
                assert(out@[k] == fixed[k]);
            }
        }
        assert(out@ =~= hb);
        out
    }

    /// Decode a header, refusing a wrong magic, an unknown version, unknown
    /// flag bits, and Argon2 costs out of range; reserved bytes are ignored.
    pub fn parse(bytes: &[u8; HEADER_LEN]) -> (r: Result<Self>)
        ensures
            match parse_error(bytes@) {
                Some(msg) => r matches Err(Error::InvalidHeader(m)) && m == msg,
                None => r matches Ok(h) && header_matches_bytes(h, bytes@) && header_valid(h),
            },
    {
        if bytes[0] != MAGIC[0] || bytes[1] != MAGIC[1] || bytes[2] != MAGIC[2] || bytes[3] != MAGIC[3] {
            assert(bytes@.subrange(0, 4) != MAGIC@) by {
                let s = bytes@.subrange(0, 4);
                if s == MAGIC@ {
                    assert(s[0] == MAGIC@[0] && s[1] == MAGIC@[1] && s[2] == MAGIC@[2] && s[3] == MAGIC@[3]);
                }
            }
            return Err(Error::InvalidHeader("magic mismatch"));
        }
        assert(bytes@.subrange(0, 4) =~= MAGIC@);
        if bytes[4] != VERSION {
            return Err(Error::InvalidHeader("unsupported version"));
        }
        let flags = bytes[5];
        if flags & !KNOWN_FLAGS != 0 {
            return Err(Error::InvalidHeader("unknown flag bits set"));
        }
        let memory_kib = (bytes[8] as u32) * 0x100_0000 + (bytes[9] as u32) * 0x1_0000 + (bytes[10] as u32)
            * 0x100 + (bytes[11] as u32);
        let iterations = bytes[12] as u32;
        let parallelism = bytes[13] as u32;
        let kdf_params = KdfParams { memory_kib, iterations, parallelism };
        assert(kdf_params.memory_kib == be32_value(bytes@.subrange(8, 12)));
        if memory_kib == 0 || memory_kib > MAX_MEMORY_KIB || iterations == 0 || iterations > MAX_ITERATIONS
            || parallelism == 0 || parallelism > MAX_PARALLELISM {
            return Err(Error::InvalidHeader("Argon2 params out of range"));
        }
        let mut salt = [0u8; SALT_LEN];
        let mut i: usize = 0;
        while i < SALT_LEN
            invariant
                i <= SALT_LEN,
                forall|k: int| 0 <= k < i ==> salt@[k] == bytes@[16 + k],
            decreases SALT_LEN - i,
        {
            salt[i] = bytes[16 + i];
            i = i + 1;
        }
        let mut nonce_prefix = [0u8; NONCE_PREFIX_LEN];
        let mut j: usize = 0;
        while j < NONCE_PREFIX_LEN
            invariant
                j <= NONCE_PREFIX_LEN,
                forall|k: int| 0 <= k < j ==> nonce_prefix@[k] == bytes@[32 + k],
            decreases NONCE_PREFIX_LEN - j,
        {
            nonce_prefix[j] = bytes[32 + j];
            j = j + 1;
        }
        assert(salt@ =~= bytes@.subrange(16, 32));
        assert(nonce_prefix@ =~= bytes@.subrange(32, 51));
        Ok(Self { flags, kdf_params, salt, nonce_prefix })
    }
}

/// Parsing the serialization of a valid header succeeds and gives back
/// exactly that header.
pub proof fn lemma_parse_serialize(h: Header)
    requires
        header_valid(h),
    ensures
        parse_error(header_bytes(h)) is None,
        header_matches_bytes(h, header_bytes(h)),
        forall|h2: Header| header_matches_bytes(h2, header_bytes(h)) ==> h2 == h,
{
    broadcast use vstd::array::group_array_axioms;

    let b = header_bytes(h);
    let m = h.kdf_params.memory_kib;
    assert(b.len() == HEADER_LEN);
    assert(b.subrange(0, 4) =~= MAGIC@);
    assert(b[4] == VERSION);
    assert(b[5] == h.flags);
    lemma_be32_round_trip(m);
    assert(b.subrange(8, 12) =~= be32(m));
    assert(b[12] == h.kdf_params.iterations as u8);
    assert(b[13] == h.kdf_params.parallelism as u8);
    assert(b.subrange(16, 32) =~= h.salt@);
    assert(b.subrange(32, 51) =~= h.nonce_prefix@);
    assert forall|h2: Header| header_matches_bytes(h2, b) implies h2 == h by {
        assert(h2.salt =~= h.salt);
        assert(h2.nonce_prefix =~= h.nonce_prefix);
    }
}

/// Serializing a parsed header gives back the bytes it was parsed from,
/// provided their reserved bytes are zero.
pub proof fn lemma_serialize_parse(b: Seq<u8>, h: Header)
    requires
        b.len() == HEADER_LEN,
        parse_error(b) is None,
        header_matches_bytes(h, b),
        reserved_zero(b),
    ensures
        header_bytes(h) == b,
{
    let hb = header_bytes(h);
    lemma_be32_of_value(b.subrange(8, 12));
    assert(b.subrange(0, 4) == MAGIC@);
    assert forall|k: int| 0 <= k < HEADER_LEN implies hb[k] == b[k] by {
        if k < 4 {
            assert(b[k] == b.subrange(0, 4)[k]);
        } else if 8 <= k < 12 {
            assert(b[k] == b.subrange(8, 12)[k - 8]);
        } else if 16 <= k < 32 {
            assert(b[k] == b.subrange(16, 32)[k - 16]);
        } else if 32 <= k < 51 {
            assert(b[k] == b.subrange(32, 51)[k - 32]);
        }
    }
    assert(hb =~= b);
}

} // verus!

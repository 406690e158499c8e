//! Gzip compression of a directory's tar archive. A directory encrypted with
//! compression carries `FLAG_COMPRESSED`, and decryption gunzips its payload
//! when the header says so.

use vstd::prelude::*;
use flate2::bufread::GzDecoder;
use flate2::write::GzEncoder;
use flate2::Compression;
use std::io::{Read, Write};

use crate::error::{Error, Result};
use crate::header::FLAG_COMPRESSED;

verus! {

/// The gzip stream (default compression level, empty header) that flate2
/// writes for `data`.
pub uninterp spec fn gzip(data: Seq<u8>) -> Seq<u8>;

/// What flate2's gzip decoder reads from `data`: the decompressed bytes of
/// its gzip member, or nothing when `data` is not a well-formed one.
pub uninterp spec fn gunzip(data: Seq<u8>) -> Option<Seq<u8>>;

/// Whether flate2's gzip encoder reports an error while compressing `data`
/// into a `Vec`. Writing to a `Vec` cannot fail and the compressor's state
/// depends on the input alone, so this is a function of `data`.
pub uninterp spec fn gzip_fails(data: Seq<u8>) -> bool;

/// Compresses `data` with `flate2::write::GzEncoder` at the default level
/// into a `Vec`, and returns what `finish` hands back. The claims: the call
/// fails exactly when the named failure holds of `data`; on success the
/// result is the named gzip stream of `data`, and the crate's decoder reads
/// `data` back from it (gzip is lossless; the crate's own documentation
/// decodes what its encoder wrote).
#[verifier::external_body]
fn gzip_bytes(data: &[u8]) -> (r: core::result::Result<Vec<u8>, std::io::Error>)
    ensures
        r is Ok <==> !gzip_fails(data@),
        r matches Ok(c) ==> c@ == gzip(data@) && gunzip(c@) == Some(data@),
{
    let mut encoder = GzEncoder::new(Vec::new(), Compression::default());
    encoder.write_all(data)?;
    encoder.finish()
}

/// Decompresses `data` with `flate2::bufread::GzDecoder`, reading it to the
/// end. The claims: the result is the named decoding of `data`; the call
/// fails exactly when there is none.
#[verifier::external_body]
fn gunzip_bytes(data: &[u8]) -> (r: core::result::Result<Vec<u8>, std::io::Error>)
    ensures
        match r {
            Ok(p) => gunzip(data@) == Some(p@),
            Err(_) => gunzip(data@) is None,
        },
{
    let mut out = Vec::new();
    GzDecoder::new(data).read_to_end(&mut out)?;
    Ok(out)
}

/// Whether header flags announce a gzip-compressed payload.
pub open spec fn compressed_flags(flags: u8) -> bool {
    flags & FLAG_COMPRESSED != 0
}

/// `payload` is what is sealed for the archive `tar` under `flags`: its gzip
/// stream, which decodes back to it, when the flags announce compression,
/// the archive itself otherwise.
pub open spec fn archive_payload_of(tar: Seq<u8>, flags: u8, payload: Seq<u8>) -> bool {
    if compressed_flags(flags) {
        payload == gzip(tar) && gunzip(payload) == Some(tar)
    } else {
        payload == tar
    }
}

/// The archive that a decrypted `payload` holds under `flags`: gunzipped
/// when the flags announce compression, the payload itself otherwise.
pub open spec fn archive_of_payload(payload: Seq<u8>, flags: u8) -> Option<Seq<u8>> {
    if compressed_flags(flags) {
        gunzip(payload)
    } else {
        Some(payload)
    }
}

/// The payload to seal for a directory's tar archive under the header
/// `flags`: gzip-compressed when they carry `FLAG_COMPRESSED`, the archive
/// unchanged otherwise.
pub fn archive_payload(tar: &[u8], flags: u8) -> (r: Result<Vec<u8>>)
    ensures
        r is Ok <==> !(compressed_flags(flags) && gzip_fails(tar@)),
        match r {
            Ok(p) => archive_payload_of(tar@, flags, p@),
            Err(e) => e is Io && compressed_flags(flags),
        },
{
    if flags & FLAG_COMPRESSED != 0 {
        match gzip_bytes(tar) {
            Ok(c) => Ok(c),
            Err(e) => Err(Error::Io(e)),
        }
    } else {
        let mut out: Vec<u8> = Vec::with_capacity(tar.len());
        let mut i: usize = 0;
        while i < tar.len()
            invariant
                i <= tar.len(),
                out@ == tar@.subrange(0, i as int),
            decreases tar.len() - i,
        {
            out.push(tar[i]);
            i = i + 1;
            assert(out@ =~= tar@.subrange(0, i as int));
        }
        assert(out@ =~= tar@);
        Ok(out)
    }
}

/// The tar archive held by a decrypted directory payload: gunzipped when the
/// header `flags` carry `FLAG_COMPRESSED` (an `Io` error when it is not a
/// well-formed gzip stream), the payload itself otherwise.
pub fn payload_archive(payload: Vec<u8>, flags: u8) -> (r: Result<Vec<u8>>)
    ensures
        match archive_of_payload(payload@, flags) {
            Some(tar) => r matches Ok(t) && t@ == tar,
            None => r matches Err(e) && e is Io,
        },
{
    if flags & FLAG_COMPRESSED != 0 {
        match gunzip_bytes(payload.as_slice()) {
            Ok(t) => Ok(t),
            Err(e) => Err(Error::Io(e)),
        }
    } else {
        Ok(payload)
    }
}

/// Decryption gives back the archive that encryption was given, whether or
/// not it was compressed: the payload sealed for `tar` under `flags` holds
/// `tar` under the same flags.
pub proof fn lemma_archive_round_trip(tar: Seq<u8>, flags: u8, payload: Seq<u8>)
    requires
        archive_payload_of(tar, flags, payload),
    ensures
        archive_of_payload(payload, flags) == Some(tar),
{
}

} // verus!

//! Setting up the encryption and decryption of a `.bml` payload: the header,
//! the derived key and the stream coder. Reading and writing the files is
//! left to the caller.

use vstd::prelude::*;

use crate::error::{Error, Result};
use crate::header::{
    be32_value, header_bytes, header_matches_bytes, header_valid, lemma_parse_serialize, parse_error, Header, CHUNK_SIZE,
    FLAG_DIRECTORY, HEADER_LEN,
};
use crate::kdf::{argon2id_hash, derivable, derive_key, KdfParams};
use crate::stream::{
    fresh_encoder, lemma_stream_round_trip, open_stream, stream_chunks, stream_round_trips, StreamDecoder,
    StreamEncoder,
};

verus! {

/// What a `.bml` payload holds.
#[derive(Clone, Copy, Debug, PartialEq, Eq)]
pub enum PayloadKind {
    /// One file's bytes.
    File,
    /// A tar archive of a directory.
    Directory,
}

/// The payload kind that header flags announce.
pub open spec fn kind_of_flags(flags: u8) -> PayloadKind {
    if flags & FLAG_DIRECTORY != 0 {
        PayloadKind::Directory
    } else {
        PayloadKind::File
    }
}

/// The refusal that opening a payload of the wrong kind gives.
pub open spec fn kind_mismatch_message(expected: PayloadKind) -> &'static str {
    match expected {
        PayloadKind::File => "this .bml contains a directory; use decrypt_dir / `aegis decrypt` with a directory output",
        PayloadKind::Directory => "this .bml contains a file; use decrypt_file / `aegis decrypt` with a file output",
    }
}

/// The key that `password` yields for a header.
pub open spec fn header_key(password: Seq<u8>, h: Header) -> Seq<u8> {
    argon2id_hash(
        password,
        h.salt@,
        h.kdf_params.memory_kib,
        h.kdf_params.iterations,
        h.kdf_params.parallelism,
    )
}

/// The header flags of a payload of `kind` with the `extra` flags: a
/// directory's archive always carries `FLAG_DIRECTORY`, a file's bytes carry
/// the extra flags as they are.
pub open spec fn payload_flags_spec(kind: PayloadKind, extra: u8) -> u8 {
    match kind {
        PayloadKind::Directory => extra | FLAG_DIRECTORY,
        PayloadKind::File => extra,
    }
}

proof fn lemma_directory_bit(extra: u8)
    ensures
        (extra | FLAG_DIRECTORY) & FLAG_DIRECTORY != 0,
        extra & FLAG_DIRECTORY == 0 ==> (extra | FLAG_DIRECTORY) & !FLAG_DIRECTORY == extra,
        extra & FLAG_DIRECTORY == 0 ==> extra & !FLAG_DIRECTORY == extra,
{
    assert(((extra | 1u8) & 1u8 != 0) && (extra & 1u8 == 0 ==> (extra | 1u8) & !1u8 == extra) && (extra & 1u8 == 0
        ==> extra & !1u8 == extra)) by (bit_vector);
}

/// The header flags of a payload of `kind` with the `extra` flags (master
/// password, keyfile, compression). A directory's flags announce a
/// directory; when the extra flags leave the directory bit clear, the flags
/// announce exactly `kind` and hold the extra flags besides.
pub fn payload_flags(kind: PayloadKind, extra: u8) -> (f: u8)
    ensures
        f == payload_flags_spec(kind, extra),
        kind is Directory ==> kind_of_flags(f) == kind,
        extra & FLAG_DIRECTORY == 0 ==> kind_of_flags(f) == kind && f & !FLAG_DIRECTORY == extra,
{
    proof {
        lemma_directory_bit(extra);
    }
    match kind {
        PayloadKind::Directory => extra | FLAG_DIRECTORY,
        PayloadKind::File => extra,
    }
}

/// A new header, its serialization, and the encoder that seals the payload
/// after it.
pub struct EncryptionStart {
    pub header: Header,
    pub header_bytes: [u8; HEADER_LEN],
    pub encoder: StreamEncoder,
}

/// Create the header of a new `.bml` (fresh random salt and nonce prefix),
/// derive the key from `password`, and set up the encoder whose associated
/// data is the whole serialized header.
pub fn start_encryption(flags: u8, password: &[u8], params: KdfParams) -> (r: Result<EncryptionStart>)
    requires
        params.parallelism <= 0x1FFF_FFFF,
    ensures
        match r {
            Ok(s) => {
                &&& s.header.flags == flags
                &&& s.header.kdf_params == params
                &&& s.header_bytes@ == header_bytes(s.header)
                &&& s.encoder.wf()
                &&& s.encoder@ == fresh_encoder(
                    header_key(password@, s.header),
                    s.header.nonce_prefix@,
                    header_bytes(s.header),
                )
                &&& derivable(password@, params)
            },
            Err(e) => e is Rng || (e is Kdf && !derivable(password@, params)),
        },
{
    let header = Header::new(flags, params)?;
    let header_bytes = header.serialize();
    let key = derive_key(password, &header.salt, header.kdf_params)?;
    let encoder = StreamEncoder::new(key, header.nonce_prefix, header_bytes);
    assert(encoder@ =~= fresh_encoder(header_key(password@, header), header.nonce_prefix@, header_bytes@));
    Ok(EncryptionStart { header, header_bytes, encoder })
}

/// Start encrypting a payload of `kind`: the header's flags are those that
/// `payload_flags` gives for `kind` and `extra`, so a directory's header
/// carries the directory flag and `start_decryption` opens it as a
/// directory; the rest is `start_encryption`.
pub fn start_payload_encryption(kind: PayloadKind, extra: u8, password: &[u8], params: KdfParams) -> (r: Result<EncryptionStart>)
    requires
        params.parallelism <= 0x1FFF_FFFF,
    ensures
        match r {
            Ok(s) => {
                &&& s.header.flags == payload_flags_spec(kind, extra)
                &&& (kind is Directory || extra & FLAG_DIRECTORY == 0) ==> kind_of_flags(s.header.flags) == kind
                &&& s.header.kdf_params == params
                &&& s.header_bytes@ == header_bytes(s.header)
                &&& s.encoder.wf()
                &&& s.encoder@ == fresh_encoder(
                    header_key(password@, s.header),
                    s.header.nonce_prefix@,
                    header_bytes(s.header),
                )
                &&& derivable(password@, params)
            },
            Err(e) => e is Rng || (e is Kdf && !derivable(password@, params)),
        },
{
    let flags = payload_flags(kind, extra);
    start_encryption(flags, password, params)
}

/// Parse the header of a `.bml`, refuse a payload of the other kind, derive
/// the key from `password`, and set up the decoder whose associated data is
/// the whole header.
pub fn start_decryption(header_bytes: &[u8; HEADER_LEN], password: &[u8], expected: PayloadKind) -> (r: Result<(Header, StreamDecoder)>)
    ensures
        match parse_error(header_bytes@) {
            Some(msg) => r matches Err(Error::InvalidHeader(m)) && m == msg,
            None => match r {
                Ok((h, d)) => {
                    &&& header_matches_bytes(h, header_bytes@)
                    &&& header_valid(h)
                    &&& kind_of_flags(h.flags) == expected
                    &&& derivable(password@, h.kdf_params)
                    &&& d.wf()
                    &&& d.stashed() is None
                    &&& d@.key == header_key(password@, h)
                    &&& d@.nonce_prefix == h.nonce_prefix@
                    &&& d@.header_aad == header_bytes@
                    &&& d@.counter == 0
                    &&& d@.plaintext.len() == 0
                    &&& d@.pos == 0
                    &&& !d@.done
                },
                Err(e) => {
                    let flags = header_bytes@[5];
                    let params = KdfParams {
                        memory_kib: be32_value(header_bytes@.subrange(8, 12)),
                        iterations: header_bytes@[12] as u32,
                        parallelism: header_bytes@[13] as u32,
                    };
                    if kind_of_flags(flags) != expected {
                        e matches Error::InvalidHeader(m) && m == kind_mismatch_message(expected)
                    } else {
                        e is Kdf && !derivable(password@, params)
                    }
                },
            },
        },
{
    let header = Header::parse(header_bytes)?;
    let is_dir = header.flags & FLAG_DIRECTORY != 0;
    match expected {
        PayloadKind::File => {
            if is_dir {
                return Err(
                    Error::InvalidHeader(
                        "this .bml contains a directory; use decrypt_dir / `aegis decrypt` with a directory output",
                    ),
                );
            }
        },
        PayloadKind::Directory => {
            if !is_dir {
                return Err(
                    Error::InvalidHeader(
                        "this .bml contains a file; use decrypt_file / `aegis decrypt` with a file output",
                    ),
                );
            }
        },
    }
    let key = derive_key(password, &header.salt, header.kdf_params)?;
    let decoder = StreamDecoder::new(key, header.nonce_prefix, *header_bytes);
    Ok((header, decoder))
}

/// A payload sealed after the header `h` with the key that `password`
/// yields is opened back to the same plaintext by the decoder that
/// `start_decryption` sets up from the serialized header and the same
/// password: what decryption gives back is what encryption was given.
pub proof fn lemma_payload_round_trip(h: Header, password: Seq<u8>, pt: Seq<u8>)
    requires
        header_valid(h),
        stream_round_trips(header_key(password, h), h.nonce_prefix@, header_bytes(h), pt),
        pt.len() / (CHUNK_SIZE as nat) <= u32::MAX,
    ensures
        parse_error(header_bytes(h)) is None,
        forall|h2: Header|
            header_matches_bytes(h2, header_bytes(h)) ==> open_stream(
                header_key(password, h2),
                h2.nonce_prefix@,
                header_bytes(h),
                0,
                stream_chunks(header_key(password, h), h.nonce_prefix@, header_bytes(h), pt),
            ) == Some(pt),
{
    lemma_parse_serialize(h);
    lemma_stream_round_trip(header_key(password, h), h.nonce_prefix@, header_bytes(h), pt);
}

/// The serialized header of a payload of `kind` announces that kind: it
/// parses, and the flag byte that `start_decryption` checks against the
/// expected kind says `kind`. So a directory encrypted as a directory is
/// opened as a directory, and a file as a file.
pub proof fn lemma_payload_kind_kept(h: Header, kind: PayloadKind, extra: u8)
    requires
        header_valid(h),
        h.flags == payload_flags_spec(kind, extra),
        kind is Directory || extra & FLAG_DIRECTORY == 0,
    ensures
        parse_error(header_bytes(h)) is None,
        kind_of_flags(header_bytes(h)[5]) == kind,
{
    lemma_parse_serialize(h);
    lemma_directory_bit(extra);
}

} // verus!

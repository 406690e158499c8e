use aegis::aead::TAG_LEN;
use aegis::{
    decrypt, derive_key, start_decryption, start_encryption, Error, KdfParams, Key, PayloadKind, ReadStep,
    StreamDecoder, StreamEncoder, CHUNK_SIZE, FLAG_DIRECTORY, FLAG_MASTER_KEY, HEADER_LEN,
};

const PWD: &[u8] = b"correct horse battery staple";
const WRONG: &[u8] = b"correct horse battery stable";

/// Encrypt `content` into the bytes of a whole `.bml` file, feeding the
/// encoder in pieces of `piece` bytes.
fn seal_file(content: &[u8], password: &[u8], flags: u8, piece: usize) -> Vec<u8> {
    let start = start_encryption(flags, password, KdfParams::fast_for_tests()).unwrap();
    let mut file = start.header_bytes.to_vec();
    let mut encoder = start.encoder;
    for part in content.chunks(piece.max(1)) {
        for chunk in encoder.write(part).unwrap() {
            file.extend_from_slice(&chunk);
        }
    }
    file.extend_from_slice(&encoder.finish().unwrap());
    file
}

/// Decrypt the bytes of a whole `.bml` file as a reader would deliver them.
fn open_file(file: &[u8], password: &[u8], kind: PayloadKind) -> Result<Vec<u8>, Error> {
    let mut header_bytes = [0u8; HEADER_LEN];
    if file.len() < HEADER_LEN {
        return Err(Error::Truncated);
    }
    header_bytes.copy_from_slice(&file[..HEADER_LEN]);
    let (_, mut decoder) = start_decryption(&header_bytes, password, kind)?;
    let body = &file[HEADER_LEN..];
    let mut pos = 0;
    let mut out = Vec::new();
    loop {
        match decoder.read_step(7919) {
            ReadStep::Data(d) => out.extend_from_slice(&d),
            ReadStep::End => return Ok(out),
            ReadStep::NeedChunk => {
                let end = (pos + CHUNK_SIZE + TAG_LEN).min(body.len());
                decoder.fetch_next_chunk(&body[pos..end])?;
                pos = end;
            }
        }
    }
}

fn pattern(len: usize) -> Vec<u8> {
    (0..len).map(|i| (i % 251) as u8).collect()
}

fn round_trip(content: &[u8]) {
    for piece in [1000, CHUNK_SIZE, 3 * CHUNK_SIZE] {
        let file = seal_file(content, PWD, 0, piece);
        let full_chunks = content.len() / CHUNK_SIZE;
        assert_eq!(file.len(), HEADER_LEN + content.len() + (full_chunks + 1) * TAG_LEN);
        assert_eq!(open_file(&file, PWD, PayloadKind::File).unwrap(), content);
    }
}

#[test]
fn stream_round_trip_empty() {
    round_trip(&[]);
}

#[test]
fn stream_round_trip_one_byte() {
    round_trip(b"x");
}

#[test]
fn stream_round_trip_chunk_minus_one() {
    round_trip(&pattern(CHUNK_SIZE - 1));
}

#[test]
fn stream_round_trip_exact_chunk() {
    round_trip(&pattern(CHUNK_SIZE));
}

#[test]
fn stream_round_trip_chunk_plus_one() {
    round_trip(&pattern(CHUNK_SIZE + 1));
}

#[test]
fn stream_round_trip_two_chunks_exact() {
    round_trip(&pattern(2 * CHUNK_SIZE));
}

#[test]
fn stream_round_trip_large_5x_plus() {
    round_trip(&pattern(5 * CHUNK_SIZE + 12345));
}

#[test]
fn stream_wrong_password_fails() {
    let file = seal_file(b"secret payload here", PWD, 0, 64);
    let err = open_file(&file, WRONG, PayloadKind::File).unwrap_err();
    assert!(matches!(err, Error::Aead), "got {err:?}");
}

#[test]
fn stream_header_byte_tampered_fails() {
    let mut file = seal_file(b"payload", PWD, 0, 64);
    file[20] ^= 0x01;
    let err = open_file(&file, PWD, PayloadKind::File).unwrap_err();
    assert!(matches!(err, Error::Aead), "got {err:?}");
}

#[test]
fn stream_reserved_header_byte_tampered_fails() {
    let mut file = seal_file(b"payload", PWD, 0, 64);
    file[60] ^= 0x01;
    let err = open_file(&file, PWD, PayloadKind::File).unwrap_err();
    assert!(matches!(err, Error::Aead), "got {err:?}");
}

#[test]
fn stream_magic_tampered_fails_with_invalid_header() {
    let mut file = seal_file(b"payload", PWD, 0, 64);
    file[0] = b'X';
    let err = open_file(&file, PWD, PayloadKind::File).unwrap_err();
    assert!(matches!(err, Error::InvalidHeader("magic mismatch")), "got {err:?}");
}

#[test]
fn stream_payload_byte_tampered_fails() {
    let mut file = seal_file(&vec![0xABu8; 200], PWD, 0, 64);
    file[100] ^= 0x01;
    let err = open_file(&file, PWD, PayloadKind::File).unwrap_err();
    assert!(matches!(err, Error::Aead), "got {err:?}");
}

#[test]
fn stream_last_byte_tampered_fails() {
    let mut file = seal_file(b"some bytes here", PWD, 0, 64);
    let last = file.len() - 1;
    file[last] ^= 0x80;
    let err = open_file(&file, PWD, PayloadKind::File).unwrap_err();
    assert!(matches!(err, Error::Aead), "got {err:?}");
}

#[test]
fn stream_truncated_payload_fails() {
    let file = seal_file(&pattern(3 * CHUNK_SIZE), PWD, 0, CHUNK_SIZE);
    let truncated = &file[..file.len() - (CHUNK_SIZE + 16)];
    let err = open_file(truncated, PWD, PayloadKind::File).unwrap_err();
    assert!(matches!(err, Error::Aead | Error::Truncated), "got {err:?}");
}

#[test]
fn stream_dropped_last_chunk_is_truncated() {
    let file = seal_file(&pattern(2 * CHUNK_SIZE + 100), PWD, 0, CHUNK_SIZE);
    let without_last = &file[..HEADER_LEN + 2 * (CHUNK_SIZE + TAG_LEN)];
    let err = open_file(without_last, PWD, PayloadKind::File).unwrap_err();
    assert!(matches!(err, Error::Truncated), "got {err:?}");
}

#[test]
fn stream_header_only_fails_truncated() {
    let file = seal_file(b"payload", PWD, 0, 64);
    let err = open_file(&file[..HEADER_LEN], PWD, PayloadKind::File).unwrap_err();
    assert!(matches!(err, Error::Truncated), "got {err:?}");
}

#[test]
fn stream_chunk_swap_fails() {
    let mut file = seal_file(&pattern(2 * CHUNK_SIZE + 100), PWD, 0, CHUNK_SIZE);
    let full = CHUNK_SIZE + 16;
    let c0 = HEADER_LEN;
    let c1 = c0 + full;
    let chunk0 = file[c0..c0 + full].to_vec();
    let chunk1 = file[c1..c1 + full].to_vec();
    file[c0..c0 + full].copy_from_slice(&chunk1);
    file[c1..c1 + full].copy_from_slice(&chunk0);
    let err = open_file(&file, PWD, PayloadKind::File).unwrap_err();
    assert!(matches!(err, Error::Aead), "got {err:?}");
}

#[test]
fn stream_appended_data_is_not_read() {
    let mut file = seal_file(b"short", PWD, 0, 64);
    let clean = open_file(&file, PWD, PayloadKind::File).unwrap();
    file.extend_from_slice(b"trailing garbage");
    // The extra bytes land in the last chunk as the reader sees it, so the
    // last chunk no longer authenticates.
    let err = open_file(&file, PWD, PayloadKind::File).unwrap_err();
    assert_eq!(clean, b"short");
    assert!(matches!(err, Error::Aead), "got {err:?}");
}

#[test]
fn stream_kind_mismatch_is_refused() {
    let dir_file = seal_file(b"tar bytes", PWD, FLAG_DIRECTORY, 64);
    match open_file(&dir_file, PWD, PayloadKind::File) {
        Err(Error::InvalidHeader(m)) => assert!(m.contains("contains a directory")),
        other => panic!("got {other:?}"),
    }
    let plain_file = seal_file(b"bytes", PWD, 0, 64);
    match open_file(&plain_file, PWD, PayloadKind::Directory) {
        Err(Error::InvalidHeader(m)) => assert!(m.contains("contains a file")),
        other => panic!("got {other:?}"),
    }
    assert_eq!(open_file(&dir_file, PWD, PayloadKind::Directory).unwrap(), b"tar bytes");
}

#[test]
fn stream_master_flag_is_kept() {
    let file = seal_file(b"secret", PWD, FLAG_MASTER_KEY, 64);
    assert_eq!(file[5] & FLAG_MASTER_KEY, FLAG_MASTER_KEY);
    let file = seal_file(b"secret", PWD, 0, 64);
    assert_eq!(file[5] & FLAG_MASTER_KEY, 0);
}

#[test]
fn stream_chunk_nonces_follow_the_layout() {
    // Chunk i is sealed with nonce prefix || be32(i) || last, under the
    // header as associated data.
    let content = pattern(CHUNK_SIZE + 10);
    let file = seal_file(&content, PWD, 0, 4096);
    let header: [u8; HEADER_LEN] = file[..HEADER_LEN].try_into().unwrap();
    let h = aegis::Header::parse(&header).unwrap();
    let key = derive_key(PWD, &h.salt, h.kdf_params).unwrap();
    let mut nonce = [0u8; 24];
    nonce[..19].copy_from_slice(&h.nonce_prefix);
    let c0 = &file[HEADER_LEN..HEADER_LEN + CHUNK_SIZE + TAG_LEN];
    assert_eq!(decrypt(&key, &nonce, &header, c0).unwrap(), &content[..CHUNK_SIZE]);
    nonce[22] = 1;
    nonce[23] = 1;
    let c1 = &file[HEADER_LEN + CHUNK_SIZE + TAG_LEN..];
    assert_eq!(decrypt(&key, &nonce, &header, c1).unwrap(), &content[CHUNK_SIZE..]);
}

#[test]
fn encoder_emits_only_full_chunks_until_finish() {
    let key = Key::from_bytes([7u8; 32]);
    let mut enc = StreamEncoder::new(key, [1u8; 19], [2u8; HEADER_LEN]);
    assert!(enc.write(&pattern(CHUNK_SIZE - 1)).unwrap().is_empty());
    let chunks = enc.write(&pattern(2)).unwrap();
    assert_eq!(chunks.len(), 1);
    assert_eq!(chunks[0].len(), CHUNK_SIZE + TAG_LEN);
    let last = enc.finish().unwrap();
    assert_eq!(last.len(), 1 + TAG_LEN);
}

#[test]
fn decoder_serves_in_pieces_and_records_errors() {
    let key = Key::from_bytes([7u8; 32]);
    let mut enc = StreamEncoder::new(key.clone(), [1u8; 19], [2u8; HEADER_LEN]);
    assert!(enc.write(b"hello world").unwrap().is_empty());
    let last = enc.finish().unwrap();
    let mut dec = StreamDecoder::new(key, [1u8; 19], [2u8; HEADER_LEN]);
    assert!(matches!(dec.read_step(4), ReadStep::NeedChunk));
    dec.fetch_next_chunk(&last).unwrap();
    match dec.read_step(0) {
        ReadStep::Data(d) => assert!(d.is_empty()),
        _ => panic!("expected empty data"),
    }
    let mut got = Vec::new();
    loop {
        match dec.read_step(4) {
            ReadStep::Data(d) => {
                assert!(d.len() <= 4);
                got.extend_from_slice(&d);
            }
            ReadStep::End => break,
            ReadStep::NeedChunk => panic!("no further chunk expected"),
        }
    }
    assert_eq!(got, b"hello world");
    assert!(dec.take_error().is_none());
    dec.record_error(Error::Truncated);
    assert!(matches!(dec.take_error(), Some(Error::Truncated)));
    assert!(dec.take_error().is_none());
}

#[test]
fn decoder_rejects_chunk_shorter_than_tag() {
    let mut dec = StreamDecoder::new(Key::from_bytes([0u8; 32]), [0u8; 19], [0u8; HEADER_LEN]);
    let err = dec.fetch_next_chunk(&[0u8; 15]).unwrap_err();
    assert!(matches!(err, Error::Truncated), "got {err:?}");
}

#[test]
fn stream_round_trip_with_keyfile() {
    let digest = aegis::keyfile::digest_content(b"32-byte minimal keyfile content!");
    let combined = aegis::keyfile::combine(b"hunter2", Some(&digest));
    let file = seal_file(b"top secret payload", &combined, aegis::FLAG_KEYFILE | FLAG_MASTER_KEY, 7);
    assert_eq!(file[5], aegis::FLAG_KEYFILE | FLAG_MASTER_KEY);
    assert_eq!(open_file(&file, &combined, PayloadKind::File).unwrap(), b"top secret payload");
}

#[test]
fn stream_wrong_keyfile_fails() {
    let good = aegis::keyfile::digest_content(b"the right keyfile content");
    let bad = aegis::keyfile::digest_content(b"the wrong keyfile content");
    let file = seal_file(b"top secret payload", &aegis::keyfile::combine(b"hunter2", Some(&good)), 0, 7);
    let err = open_file(&file, &aegis::keyfile::combine(b"hunter2", Some(&bad)), PayloadKind::File).unwrap_err();
    assert!(matches!(err, Error::Aead), "got {err:?}");
    let err = open_file(&file, b"hunter2", PayloadKind::File).unwrap_err();
    assert!(matches!(err, Error::Aead), "got {err:?}");
}

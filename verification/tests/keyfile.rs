use aegis::keyfile;

#[test]
fn combine_returns_password_when_no_digest() {
    let pwd = b"hunter2";
    let out = keyfile::combine(pwd, None);
    assert_eq!(out, pwd.to_vec());
}

#[test]
fn combine_appends_digest_when_provided() {
    let pwd = b"hunter2";
    let digest = [0xAAu8; keyfile::DIGEST_LEN];
    let out = keyfile::combine(pwd, Some(&digest));
    assert_eq!(out.len(), pwd.len() + keyfile::DIGEST_LEN);
    assert_eq!(&out[..pwd.len()], pwd);
    assert_eq!(&out[pwd.len()..], &digest);
}

#[test]
fn digest_content_is_deterministic() {
    let a = keyfile::digest_content(b"some keyfile content");
    let b = keyfile::digest_content(b"some keyfile content");
    assert_eq!(a, b);
}

#[test]
fn digest_content_differs_for_different_content() {
    let d1 = keyfile::digest_content(b"content one");
    let d2 = keyfile::digest_content(b"content two");
    assert_ne!(d1, d2);
}

#[test]
fn digest_content_of_empty_input_is_blake2b_256() {
    // BLAKE2b with a 32-byte output over the empty message (RFC 7693 parameters).
    let expected: [u8; 32] = [
        0x0e, 0x57, 0x51, 0xc0, 0x26, 0xe5, 0x43, 0xb2, 0xe8, 0xab, 0x2e, 0xb0, 0x60, 0x99, 0xda, 0xa1, 0xd1, 0xe5,
        0xdf, 0x47, 0x77, 0x8f, 0x77, 0x87, 0xfa, 0xab, 0x45, 0xcd, 0xf1, 0x2f, 0xe3, 0xa8,
    ];
    assert_eq!(keyfile::digest_content(b""), expected);
}

#[test]
fn digest_content_is_not_the_input() {
    let content = [0xCDu8; 32];
    assert_ne!(keyfile::digest_content(&content), content);
}

#[test]
fn keyfile_sizes() {
    assert!(!keyfile::keyfile_size_ok(0));
    assert!(keyfile::keyfile_size_ok(1));
    assert!(keyfile::keyfile_size_ok(keyfile::DEFAULT_SIZE));
    assert!(keyfile::keyfile_size_ok(1024 * 1024));
    assert!(!keyfile::keyfile_size_ok(1024 * 1024 + 1));
}

#[test]
fn random_keyfile_has_requested_size() {
    let a = keyfile::random_keyfile(64).unwrap();
    let b = keyfile::random_keyfile(64).unwrap();
    assert_eq!(a.len(), 64);
    assert_ne!(a, b);
}

#[test]
fn wipe_zeroes_every_byte() {
    let mut v = vec![1u8, 2, 3, 255];
    keyfile::wipe(&mut v);
    assert_eq!(v, vec![0u8; 4]);
}

#[test]
fn keyfile_digest_unchanged_by_repeated_calls() {
    // Guards against any state leakage between calls (e.g., bad hasher reuse).
    let content = vec![0xCDu8; 4096];
    let mut digests = Vec::new();
    for _ in 0..5 {
        digests.push(keyfile::digest_content(&content));
    }
    for d in &digests[1..] {
        assert_eq!(d, &digests[0]);
    }
}

/// Seal `content` as a whole `.bml` file under `password`.
fn seal_with(content: &[u8], password: &[u8], flags: u8) -> Vec<u8> {
    let start = aegis::start_encryption(flags, password, aegis::KdfParams::fast_for_tests()).unwrap();
    let mut file = start.header_bytes.to_vec();
    let mut encoder = start.encoder;
    for chunk in encoder.write(content).unwrap() {
        file.extend_from_slice(&chunk);
    }
    file.extend_from_slice(&encoder.finish().unwrap());
    file
}

/// Open a whole `.bml` file holding one file's bytes under `password`.
fn open_with(file: &[u8], password: &[u8]) -> Result<Vec<u8>, aegis::Error> {
    let mut header_bytes = [0u8; aegis::HEADER_LEN];
    header_bytes.copy_from_slice(&file[..aegis::HEADER_LEN]);
    let (_, mut decoder) = aegis::start_decryption(&header_bytes, password, aegis::PayloadKind::File)?;
    let body = &file[aegis::HEADER_LEN..];
    let mut pos = 0;
    let mut out = Vec::new();
    loop {
        match decoder.read_step(4096) {
            aegis::ReadStep::Data(d) => out.extend_from_slice(&d),
            aegis::ReadStep::End => return Ok(out),
            aegis::ReadStep::NeedChunk => {
                let end = (pos + aegis::CHUNK_SIZE + aegis::aead::TAG_LEN).min(body.len());
                decoder.fetch_next_chunk(&body[pos..end])?;
                pos = end;
            }
        }
    }
}

#[test]
fn wrong_password_with_right_keyfile_fails_aead() {
    let digest = keyfile::digest_content(b"32-byte keyfile content here!");
    let combined_good = keyfile::combine(b"correct password", Some(&digest));
    let combined_bad = keyfile::combine(b"wrong   password", Some(&digest));

    let file = seal_with(b"top secret payload", &combined_good, aegis::FLAG_KEYFILE);

    let err = open_with(&file, &combined_bad).unwrap_err();
    assert!(matches!(err, aegis::Error::Aead));
    assert_eq!(open_with(&file, &combined_good).unwrap(), b"top secret payload".to_vec());
}

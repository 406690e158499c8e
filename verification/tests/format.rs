use aegis::header::{MAGIC, NONCE_PREFIX_LEN, VERSION};
use aegis::{Error, Header, KdfParams, FLAG_COMPRESSED, FLAG_DIRECTORY, FLAG_KEYFILE, FLAG_MASTER_KEY, HEADER_LEN};

fn sample_header() -> Header {
    Header {
        flags: FLAG_MASTER_KEY | FLAG_KEYFILE,
        kdf_params: KdfParams { memory_kib: 0x0004_0000, iterations: 3, parallelism: 4 },
        salt: [0x11u8; 16],
        nonce_prefix: [0x22u8; NONCE_PREFIX_LEN],
    }
}

#[test]
fn serialize_layout() {
    let bytes = sample_header().serialize();
    assert_eq!(&bytes[0..4], b"BML1");
    assert_eq!(&bytes[0..4], &MAGIC);
    assert_eq!(bytes[4], VERSION);
    assert_eq!(bytes[5], 0b0000_0110);
    assert_eq!(&bytes[6..8], &[0, 0]);
    assert_eq!(&bytes[8..12], &[0x00, 0x04, 0x00, 0x00]);
    assert_eq!(bytes[12], 3);
    assert_eq!(bytes[13], 4);
    assert_eq!(&bytes[14..16], &[0, 0]);
    assert_eq!(&bytes[16..32], &[0x11u8; 16]);
    assert_eq!(&bytes[32..51], &[0x22u8; 19]);
    assert_eq!(&bytes[51..64], &[0u8; 13]);
}

#[test]
fn parse_serialize_round_trip() {
    let h = sample_header();
    let bytes = h.serialize();
    let back = Header::parse(&bytes).unwrap();
    assert_eq!(back.flags, h.flags);
    assert_eq!(back.kdf_params.memory_kib, h.kdf_params.memory_kib);
    assert_eq!(back.kdf_params.iterations, h.kdf_params.iterations);
    assert_eq!(back.kdf_params.parallelism, h.kdf_params.parallelism);
    assert_eq!(back.salt, h.salt);
    assert_eq!(back.nonce_prefix, h.nonce_prefix);
    assert_eq!(back.serialize(), bytes);
}

#[test]
fn serialize_saturates_large_costs() {
    let mut h = sample_header();
    h.kdf_params.iterations = 300;
    h.kdf_params.parallelism = 255;
    let bytes = h.serialize();
    assert_eq!(bytes[12], 255);
    assert_eq!(bytes[13], 255);
}

fn parse_message(bytes: &[u8; HEADER_LEN]) -> &'static str {
    match Header::parse(bytes) {
        Err(Error::InvalidHeader(m)) => m,
        other => panic!("expected InvalidHeader, got {other:?}"),
    }
}

#[test]
fn parse_rejects_bad_magic() {
    let mut bytes = sample_header().serialize();
    bytes[0] = b'X';
    assert_eq!(parse_message(&bytes), "magic mismatch");
}

#[test]
fn parse_rejects_unknown_version() {
    let mut bytes = sample_header().serialize();
    bytes[4] = 2;
    assert_eq!(parse_message(&bytes), "unsupported version");
}

#[test]
fn parse_rejects_unknown_flags() {
    let mut bytes = sample_header().serialize();
    bytes[5] = 0x10;
    assert_eq!(parse_message(&bytes), "unknown flag bits set");
}

#[test]
fn parse_accepts_all_known_flags() {
    let mut bytes = sample_header().serialize();
    bytes[5] = FLAG_DIRECTORY | FLAG_MASTER_KEY | FLAG_KEYFILE | FLAG_COMPRESSED;
    assert_eq!(Header::parse(&bytes).unwrap().flags, 0x0F);
}

#[test]
fn parse_rejects_out_of_range_params() {
    let cases: [(usize, u8); 5] = [(8, 0x01), (11, 0), (12, 0), (12, 65), (13, 65)];
    for (idx, value) in cases {
        let mut bytes = sample_header().serialize();
        if idx == 11 {
            // memory_kib == 0
            bytes[8..12].copy_from_slice(&[0, 0, 0, 0]);
        } else if idx == 8 {
            // memory_kib == 0x0100_0000 KiB, above the 4 GiB limit
            bytes[8..12].copy_from_slice(&[value, 0, 0, 0]);
        } else {
            bytes[idx] = value;
        }
        assert_eq!(parse_message(&bytes), "Argon2 params out of range");
    }
}

#[test]
fn parse_accepts_limits() {
    let mut bytes = sample_header().serialize();
    bytes[8..12].copy_from_slice(&[0x00, 0x40, 0x00, 0x00]);
    bytes[12] = 64;
    bytes[13] = 64;
    let h = Header::parse(&bytes).unwrap();
    assert_eq!(h.kdf_params.memory_kib, 4 * 1024 * 1024);
    assert_eq!(h.kdf_params.iterations, 64);
    assert_eq!(h.kdf_params.parallelism, 64);
}

#[test]
fn parse_ignores_reserved_bytes() {
    let mut bytes = sample_header().serialize();
    bytes[6] = 0xEE;
    bytes[60] = 0xEE;
    let h = Header::parse(&bytes).unwrap();
    assert_eq!(h.flags, sample_header().flags);
}

#[test]
fn new_header_has_fresh_randomness() {
    let a = Header::new(FLAG_DIRECTORY, KdfParams::fast_for_tests()).unwrap();
    let b = Header::new(FLAG_DIRECTORY, KdfParams::fast_for_tests()).unwrap();
    assert_eq!(a.flags, FLAG_DIRECTORY);
    assert_eq!(a.kdf_params.memory_kib, 8192);
    assert_ne!(a.salt, b.salt);
    assert_ne!(a.nonce_prefix, b.nonce_prefix);
}

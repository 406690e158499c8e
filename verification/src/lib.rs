//! Aegis: password-based file and directory encryption with XChaCha20-Poly1305
//! in a chunked STREAM construction and Argon2id key derivation.
//!
//! The verified library holds the `.bml` format (header, chunk nonces,
//! stream coder), the key derivation and sealing calls, keyfile handling,
//! the master password's keyring entry, and the decisions of the command
//! line. Reading and writing files and prompting the user are left to the
//! program around it.

pub mod aead;
pub mod compress;
pub mod dialog;
pub mod error;
pub mod file;
pub mod header;
pub mod kdf;
pub mod key;
pub mod keychain;
pub mod keyfile;
pub mod names;
mod random;
pub mod stream;
pub mod text;
pub mod workflow;

pub use aead::{decrypt, encrypt};
pub use compress::{archive_payload, payload_archive};
pub use error::{Error, Result};
pub use file::{payload_flags, start_decryption, start_encryption, start_payload_encryption, EncryptionStart, PayloadKind};
pub use header::{Header, CHUNK_SIZE, FLAG_COMPRESSED, FLAG_DIRECTORY, FLAG_KEYFILE, FLAG_MASTER_KEY, HEADER_LEN};
pub use kdf::{derive_key, random_salt, KdfParams};
pub use key::Key;
pub use stream::{ReadStep, StreamDecoder, StreamEncoder};

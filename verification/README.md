# aegis

Personal file and directory encryption: XChaCha20-Poly1305 in a chunked
STREAM construction (64 KiB chunks, one 64-byte header used as associated
data of every chunk) with Argon2id password-based key derivation, an
optional keyfile as second factor, and the master password kept in the
system keyring.

## Layout

- `src/` — the verified library (Verus):
  - `header.rs` — the `.bml` header format, with parse/serialize laws;
  - `stream.rs` — chunk nonces and the stream encoder/decoder, with the
    laws that the decoder gives back what the encoder sealed, however the
    plaintext was split into writes, that nonces never repeat, and that
    truncation is detected;
  - `compress.rs` — gzip compression of a directory's tar archive, undone
    on decryption when the header carries the compressed flag (a payload
    under that flag must be a gzip stream: a plain tar under it is refused
    as an i/o error);
  - `names.rs`, `text.rs` — output file names (`.bml` added or removed,
    ` (n)` numbering) and decimal text;
  - `aead.rs`, `kdf.rs`, `keyfile.rs` — XChaCha20-Poly1305, Argon2id and
    BLAKE2b-256 calls behind small trusted wrappers, and the keyfile input;
  - `file.rs` — setting up encryption and decryption of a payload;
  - `keychain.rs` — the master password entry in the keyring;
  - `workflow.rs`, `dialog.rs` — the decisions of the command line, the
    choice lists of the dialogs and AppleScript string quoting.
- `app/` — the `aegis` program: argument parsing, terminal and dialog
  prompts, file/tar I/O, around the library.
- `tests/` — tests of the library.

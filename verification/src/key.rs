//! A 256-bit symmetric key.

use vstd::prelude::*;

verus! {

pub const KEY_LEN: usize = 32;

/// A 32-byte XChaCha20-Poly1305 key.
pub struct Key([u8; KEY_LEN]);

impl Clone for Key {
    /// A copy of the key holding the same bytes.
    fn clone(&self) -> (c: Self)
        ensures
            c@ == self@,
    {
        Key(self.0)
    }
}

impl View for Key {
    type V = Seq<u8>;

    closed spec fn view(&self) -> Seq<u8> {
        self.0@
    }
}

impl Key {
    pub fn from_bytes(bytes: [u8; KEY_LEN]) -> (k: Self)
        ensures
            k@ == bytes@,
    {
        Self(bytes)
    }

    pub fn as_bytes(&self) -> (b: &[u8; KEY_LEN])
        ensures
            b@ == self@,
    {
        &self.0
    }
}

} // verus!

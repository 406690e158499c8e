//! The library's error type.

use vstd::prelude::*;
use argon2::Error as Argon2Error;
use getrandom::Error as RandomError;
use vstd::string::to_string_from_display_ensures;

use crate::text::{decimal_text, push_decimal};

verus! {

#[verifier::external_type_specification]
#[verifier::external_body]
pub struct ExArgon2Error(Argon2Error);

#[verifier::external_type_specification]
#[verifier::external_body]
pub struct ExGetrandomError(RandomError);

#[verifier::external_type_specification]
#[verifier::external_body]
pub struct ExIoError(std::io::Error);

/// Everything that can go wrong while deriving keys, sealing or opening data.
#[derive(Debug)]
pub enum Error {
    Kdf(argon2::Error),
    Aead,
    Rng(getrandom::Error),
    Io(std::io::Error),
    InvalidHeader(&'static str),
    InvalidLength { expected: usize, got: usize },
    ChunkCounterOverflow,
    OutputAlreadyExists,
    Truncated,
}

pub type Result<T> = core::result::Result<T, Error>;

impl Error {
    /// The message that describes this error to a person.
    pub fn message(&self) -> (m: String)
        ensures
            match self {
                Error::Kdf(e) => exists|t: String|
                    to_string_from_display_ensures(e, t) && m@ == "key derivation failed: "@ + t@,
                Error::Aead => m@ == "authenticated decryption failed (wrong password or tampered data)"@,
                Error::Rng(e) => exists|t: String|
                    to_string_from_display_ensures(e, t) && m@ == "random number generator failed: "@ + t@,
                Error::Io(e) => exists|t: String| to_string_from_display_ensures(e, t) && m@ == "i/o error: "@ + t@,
                Error::InvalidHeader(why) => m@ == "invalid file header: "@ + why@,
                Error::InvalidLength { expected, got } => m@ == "invalid length: expected "@ + decimal_text(
                    *expected as nat,
                ) + ", got "@ + decimal_text(*got as nat),
                Error::ChunkCounterOverflow => m@ == "stream chunk counter overflowed"@,
                Error::OutputAlreadyExists => m@ == "output path already exists"@,
                Error::Truncated => m@ == "encrypted file is truncated or empty"@,
            },
    {
        match self {
            Error::Kdf(e) => {
                let t = e.to_string();
                String::from_str("key derivation failed: ").concat(t.as_str())
            },
            Error::Aead => String::from_str("authenticated decryption failed (wrong password or tampered data)"),
            Error::Rng(e) => {
                let t = e.to_string();
                String::from_str("random number generator failed: ").concat(t.as_str())
            },
            Error::Io(e) => {
                let t = e.to_string();
                String::from_str("i/o error: ").concat(t.as_str())
            },
            Error::InvalidHeader(why) => String::from_str("invalid file header: ").concat(why),
            Error::InvalidLength { expected, got } => {
                let mut m = String::from_str("invalid length: expected ");
                push_decimal(&mut m, *expected as u64);
                m.append(", got ");
                push_decimal(&mut m, *got as u64);
                m
            },
            Error::ChunkCounterOverflow => String::from_str("stream chunk counter overflowed"),
            Error::OutputAlreadyExists => String::from_str("output path already exists"),
            Error::Truncated => String::from_str("encrypted file is truncated or empty"),
        }
    }
}

impl From<argon2::Error> for Error {
    fn from(e: argon2::Error) -> (r: Self) {
        Error::Kdf(e)
    }
}

impl vstd::std_specs::convert::FromSpecImpl<argon2::Error> for Error {
    open spec fn obeys_from_spec() -> bool {
        true
    }

    open spec fn from_spec(v: argon2::Error) -> Self {
        Error::Kdf(v)
    }
}

impl From<getrandom::Error> for Error {
    fn from(e: getrandom::Error) -> (r: Self) {
        Error::Rng(e)
    }
}

impl vstd::std_specs::convert::FromSpecImpl<getrandom::Error> for Error {
    open spec fn obeys_from_spec() -> bool {
        true
    }

    open spec fn from_spec(v: getrandom::Error) -> Self {
        Error::Rng(v)
    }
}

impl From<std::io::Error> for Error {
    fn from(e: std::io::Error) -> (r: Self) {
        Error::Io(e)
    }
}

impl vstd::std_specs::convert::FromSpecImpl<std::io::Error> for Error {
    open spec fn obeys_from_spec() -> bool {
        true
    }

    open spec fn from_spec(v: std::io::Error) -> Self {
        Error::Io(v)
    }
}

} // verus!

use vstd::prelude::*;

verus! {

/// The error taxonomy of the library: one variant per failure condition.
/// `Proto` and `Internal` carry a short description of a structural
/// violation; every other condition has a dedicated variant.
#[derive(Debug, Clone)]
pub enum SrdError {
    Io,
    Ffi,
    BadSequence,
    Crypto,
    MissingBlob,
    BlobFormatError,
    Cipher,
    Rng,
    InvalidKeySize,
    InvalidMac,
    InvalidCbt,
    InvalidCert,
    InvalidCredentials,
    InvalidCstr,
    InvalidDataLength,
    InvalidSignature,
    UnknownMsgType,
    Proto(String),
    Internal(String),
}

impl SrdError {
    /// A short human-readable description of the error.
    pub fn description(&self) -> String {
        match self {
            SrdError::Io => String::from_str("I/O error"),
            SrdError::Ffi => String::from_str("FFI error"),
            SrdError::BadSequence => String::from_str("Sequence error"),
            SrdError::Crypto => String::from_str("Cryptographic error"),
            SrdError::MissingBlob => String::from_str("Blob error"),
            SrdError::BlobFormatError => String::from_str("Blob format error"),
            SrdError::Cipher => String::from_str("Cipher error"),
            SrdError::Rng => String::from_str("RNG error"),
            SrdError::InvalidKeySize => String::from_str("Key Size error"),
            SrdError::InvalidMac => String::from_str("MAC error"),
            SrdError::InvalidCbt => String::from_str("CBT error"),
            SrdError::InvalidCert => String::from_str("Certificate error"),
            SrdError::InvalidCredentials => String::from_str("Credentials error"),
            SrdError::InvalidCstr => String::from_str("String encoding error"),
            SrdError::InvalidDataLength => String::from_str("Data length error"),
            SrdError::InvalidSignature => String::from_str("Signature error"),
            SrdError::UnknownMsgType => String::from_str("Unknown message type"),
            SrdError::Proto(desc) => String::from_str("Protocol error: ").concat(desc.as_str()),
            SrdError::Internal(desc) => String::from_str("Internal error: ").concat(desc.as_str()),
        }
    }
}

} // verus!

//! The ways in which sealing, opening, framing or loading can fail.

use vstd::prelude::*;

verus! {

/// Why an operation of the store failed. Every one of these is fatal: nothing
/// is retried and nothing is partly recovered.
#[derive(Debug, Clone, Copy, PartialEq, Eq)]
pub enum DatError {
    /// The key does not have the length that the cipher takes.
    KeyError,
    /// The ciphertext did not open to correctly padded plaintext: the key is
    /// wrong, or the ciphertext was cut or altered.
    PaddingError,
    /// The bytes are not the framing of any generation.
    FramingError,
    /// The file could not be read or written.
    IOError,
}

impl DatError {
    /// What went wrong, in a sentence.
    pub fn message(&self) -> (text: String)
        ensures
            text@ == match *self {
                DatError::KeyError => "the key must be exactly 16 bytes long"@,
                DatError::PaddingError => "the ciphertext did not open: wrong key or damaged data"@,
                DatError::FramingError => "the bytes are not the framing of a generation"@,
                DatError::IOError => "the file could not be read or written"@,
            },
    {
        match self {
            DatError::KeyError => "the key must be exactly 16 bytes long".to_owned(),
            DatError::PaddingError => "the ciphertext did not open: wrong key or damaged data".to_owned(),
            DatError::FramingError => "the bytes are not the framing of a generation".to_owned(),
            DatError::IOError => "the file could not be read or written".to_owned(),
        }
    }
}

} // verus!

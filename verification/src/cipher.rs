//! Sealing and opening: AES-128 in cipher-block-chaining mode with PKCS#7
//! padding, from the `aes` and `block-modes` crates.
//!
//! Known weaknesses, kept because the file format is defined with them: every
//! call uses the same initialization vector, [`AES_IV`], and the ciphertext
//! carries no integrity tag. A wrong key or an altered ciphertext is therefore
//! only *likely* to be noticed, as malformed padding on opening or as a
//! framing error afterwards; nothing here promises that it is.

use crate::error::DatError;
use aes::Aes128;
use block_modes::block_padding::Pkcs7;
use block_modes::{BlockMode, BlockModeError, Cbc, InvalidKeyIvLength};
use vstd::prelude::*;

verus! {

/// The initialization vector of every seal and every open: the sixteen ASCII
/// characters `abcdef0123456789`.
pub const AES_IV: [u8; 16] = [97, 98, 99, 100, 101, 102, 48, 49, 50, 51, 52, 53, 54, 55, 56, 57];

/// The error of `block_modes::BlockMode::new_from_slices`.
#[verifier::external_type_specification]
#[verifier::external_body]
pub struct ExInvalidKeyIvLength(InvalidKeyIvLength);

/// The error of `block_modes::BlockMode::decrypt_vec`.
#[verifier::external_type_specification]
#[verifier::external_body]
pub struct ExBlockModeError(BlockModeError);

/// What `block_modes::BlockMode::encrypt_vec` returns for AES-128 in CBC mode
/// with PKCS#7 padding, set up with this key and initialization vector.
pub uninterp spec fn cbc_sealed(key: Seq<u8>, iv: Seq<u8>, plaintext: Seq<u8>) -> Seq<u8>;

/// What `block_modes::BlockMode::decrypt_vec` returns for AES-128 in CBC mode
/// with PKCS#7 padding, set up with this key and initialization vector: the
/// plaintext, or nothing where the ciphertext is no whole number of blocks or
/// its padding is malformed.
pub uninterp spec fn cbc_opened(key: Seq<u8>, iv: Seq<u8>, ciphertext: Seq<u8>) -> Option<Seq<u8>>;

/// `Cbc::<Aes128, Pkcs7>::new_from_slices` followed by `encrypt_vec`.
///
/// Believed, not proved: setting up the cipher fails exactly when the key or
/// the initialization vector is not 16 bytes long; the ciphertext is a
/// function of key, vector and plaintext; it is the plaintext's length
/// rounded up to the next whole block, a full block of padding where the
/// plaintext already ends on one; and decrypting it with the same key and
/// vector gives the plaintext back.
#[verifier::external_body]
fn cbc_encrypt(key: &[u8], iv: &[u8], plaintext: &[u8]) -> (r: Result<Vec<u8>, InvalidKeyIvLength>)
    ensures
        r is Ok <==> (key@.len() == 16 && iv@.len() == 16),
        r matches Ok(ciphertext) ==> ciphertext@ == cbc_sealed(key@, iv@, plaintext@),
        r matches Ok(ciphertext) ==> ciphertext@.len() == (plaintext@.len() / 16 + 1) * 16,
        r matches Ok(ciphertext) ==> cbc_opened(key@, iv@, ciphertext@) == Some(plaintext@),
{
    let cipher = Cbc::<Aes128, Pkcs7>::new_from_slices(key, iv)?;
    Ok(cipher.encrypt_vec(plaintext))
}

/// `Cbc::<Aes128, Pkcs7>::new_from_slices` followed by `decrypt_vec`.
///
/// Believed, not proved: setting up the cipher fails exactly when the key or
/// the initialization vector is not 16 bytes long; whether decryption
/// succeeds, and with what, is a function of key, vector and ciphertext; and
/// it succeeds only on a whole number of blocks, with a plaintext shorter
/// than the ciphertext.
#[verifier::external_body]
fn cbc_decrypt(key: &[u8], iv: &[u8], ciphertext: &[u8]) -> (r: Result<Result<Vec<u8>, BlockModeError>, InvalidKeyIvLength>)
    ensures
        r is Ok <==> (key@.len() == 16 && iv@.len() == 16),
        r matches Ok(Ok(plaintext)) ==> cbc_opened(key@, iv@, ciphertext@) == Some(plaintext@),
        r matches Ok(Ok(plaintext)) ==> ciphertext@.len() % 16 == 0,
        r matches Ok(Ok(plaintext)) ==> plaintext@.len() < ciphertext@.len(),
        r matches Ok(Err(_)) ==> cbc_opened(key@, iv@, ciphertext@) is None,
{
    let cipher = Cbc::<Aes128, Pkcs7>::new_from_slices(key, iv)?;
    Ok(cipher.decrypt_vec(ciphertext))
}

/// What sealing `plaintext` under `key` gives.
pub open spec fn sealed(key: Seq<u8>, plaintext: Seq<u8>) -> Result<Seq<u8>, DatError> {
    if key.len() == 16 {
        Ok(cbc_sealed(key, AES_IV@, plaintext))
    } else {
        Err(DatError::KeyError)
    }
}

/// What opening `ciphertext` under `key` gives.
pub open spec fn opened(key: Seq<u8>, ciphertext: Seq<u8>) -> Result<Seq<u8>, DatError> {
    if key.len() != 16 {
        Err(DatError::KeyError)
    } else {
        match cbc_opened(key, AES_IV@, ciphertext) {
            Some(plaintext) => Ok(plaintext),
            None => Err(DatError::PaddingError),
        }
    }
}

/// The outcome of a seal or an open as contracts see it.
pub open spec fn bytes_view(r: Result<Vec<u8>, DatError>) -> Result<Seq<u8>, DatError> {
    match r {
        Ok(bytes) => Ok(bytes@),
        Err(e) => Err(e),
    }
}

/// Encrypts `plaintext` under `key`.
///
/// A key that is not exactly 16 bytes long is a `KeyError`; any other key
/// seals any plaintext, and opening the result under the same key gives the
/// plaintext back.
pub fn seal(plaintext: &[u8], key: &[u8]) -> (r: Result<Vec<u8>, DatError>)
    ensures
        bytes_view(r) == sealed(key@, plaintext@),
        r matches Ok(ciphertext) ==> ciphertext@.len() == (plaintext@.len() / 16 + 1) * 16,
        r matches Ok(ciphertext) ==> opened(key@, ciphertext@) == Ok::<Seq<u8>, DatError>(
            plaintext@,
        ),
{
    match cbc_encrypt(key, AES_IV.as_slice(), plaintext) {
        Ok(ciphertext) => Ok(ciphertext),
        Err(_) => Err(DatError::KeyError),
    }
}

/// Decrypts `ciphertext` under `key`.
///
/// A key that is not exactly 16 bytes long is a `KeyError`. A ciphertext that
/// is no whole number of blocks, or that does not decrypt to correctly padded
/// plaintext, is a `PaddingError`: that is how a wrong key or an altered
/// ciphertext shows, when it shows.
pub fn open(ciphertext: &[u8], key: &[u8]) -> (r: Result<Vec<u8>, DatError>)
    ensures
        bytes_view(r) == opened(key@, ciphertext@),
        r matches Ok(plaintext) ==> ciphertext@.len() % 16 == 0 && plaintext@.len()
            < ciphertext@.len(),
{
    match cbc_decrypt(key, AES_IV.as_slice(), ciphertext) {
        Ok(Ok(plaintext)) => Ok(plaintext),
        Ok(Err(_)) => Err(DatError::PaddingError),
        Err(_) => Err(DatError::KeyError),
    }
}

} // verus!

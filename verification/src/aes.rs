//! AES-128 in ECB mode with block padding, from the `openssl` crate. Nothing
//! in this file is proved.

use crate::wire::KeyBytes;
use openssl::error::ErrorStack;
use openssl::symm::Cipher;
use vstd::prelude::*;

verus! {

/// The longest input, in bytes, that the cipher takes: the library counts
/// input and output lengths in a C `int`, and the output may be one block
/// longer than the input.
pub const MAX_CIPHER_INPUT: usize = 0x7fff_ffef;

/// The errors that OpenSSL reports.
#[verifier::external_type_specification]
#[verifier::external_body]
pub struct ExErrorStack(ErrorStack);

/// What `openssl::symm::encrypt` returns for AES-128-ECB with the given key
/// and data, when it returns data at all.
pub uninterp spec fn aes_128_ecb_encrypted(key: Seq<u8>, data: Seq<u8>) -> Seq<u8>;

/// What `openssl::symm::decrypt` returns for AES-128-ECB with the given key
/// and data, when it returns data at all.
pub uninterp spec fn aes_128_ecb_decrypted(key: Seq<u8>, data: Seq<u8>) -> Seq<u8>;

/// Calls `openssl::symm::encrypt` with the cipher AES-128-ECB and no
/// initialisation vector; padding is on. The function panics on an input
/// whose length does not fit a C `int`. Whether it succeeds is for OpenSSL
/// to say. Its output depends on key and data alone, and decrypting that
/// output under the same key gives the data back.
#[verifier::external_body]
pub(crate) fn aes_128_ecb_encrypt(key: &KeyBytes, data: &[u8]) -> (result: Result<
    Vec<u8>,
    ErrorStack,
>)
    requires
        data@.len() <= MAX_CIPHER_INPUT,
    ensures
        result matches Ok(output) ==> output@ == aes_128_ecb_encrypted(key@, data@),
        result matches Ok(output) ==> aes_128_ecb_decrypted(key@, output@) == data@,
{
    openssl::symm::encrypt(Cipher::aes_128_ecb(), key, None, data)
}

/// Calls `openssl::symm::decrypt` with the cipher AES-128-ECB and no
/// initialisation vector; padding is on. The function panics on an input
/// whose length does not fit a C `int`. It fails on data that is not whole
/// blocks or does not end in valid padding, and where OpenSSL fails for
/// reasons of its own. Its output depends on key and data alone.
#[verifier::external_body]
pub(crate) fn aes_128_ecb_decrypt(key: &KeyBytes, data: &[u8]) -> (result: Result<
    Vec<u8>,
    ErrorStack,
>)
    requires
        data@.len() <= MAX_CIPHER_INPUT,
    ensures
        result matches Ok(output) ==> output@ == aes_128_ecb_decrypted(key@, data@),
{
    openssl::symm::decrypt(Cipher::aes_128_ecb(), key, None, data)
}

} // verus!

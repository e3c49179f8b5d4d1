//! Key agreement and the session cipher of one connection.
//!
//! Two parties agree on a secret by a Diffie-Hellman exchange over a small
//! prime modulus; the secret, written in sixteen bytes, keys AES-128 for the
//! rest of the connection. The group is far too small to protect anything,
//! and the exchange is not authenticated: this is a protocol for teaching.

use crate::aes::aes_128_ecb_decrypt;
use crate::aes::aes_128_ecb_decrypted;
use crate::aes::aes_128_ecb_encrypt;
use crate::aes::aes_128_ecb_encrypted;
use crate::aes::MAX_CIPHER_INPUT;
use openssl::error::ErrorStack;
use crate::bigint::from_bytes_be;
use crate::bigint::modpow;
use crate::bigint::to_bytes_be;
use crate::frame::frame;
use crate::frame::framed;
use crate::frame::lemma_unframed_framed;
use crate::frame::strip_buffer_padding;
use crate::frame::stripped;
use crate::frame::unframe;
use crate::frame::unframed;
use crate::frame::MAX_EXACT_LEN;
use crate::random::gen_range;
use crate::wire::be_bytes;
use crate::wire::be_value;
use crate::wire::lemma_be_value_of_be_bytes;
use crate::wire::lemma_be_bytes_len;
use crate::wire::lemma_be_bytes_of_padded;
use crate::wire::lemma_shortest_fits_key;
use crate::wire::lemma_radix_power_16;
use crate::wire::zero_bytes;
use crate::wire::zero_key;
use crate::wire::KeyBytes;
use crate::wire::KEY_LEN;
use vstd::arithmetic::mul::lemma_mul_is_commutative;
use vstd::arithmetic::power::lemma_pow_mod_noop;
use vstd::arithmetic::power::lemma_pow_multiplies;
use vstd::arithmetic::power::pow;
use vstd::prelude::*;

verus! {

/// Why a message could not be encrypted or decrypted.
#[derive(Debug, Clone, Copy, PartialEq, Eq, Structural)]
pub enum CryptoError {
    /// The data is longer than the cipher takes.
    TooLong,
    /// The cipher refused: on decryption the data is not whole blocks or
    /// does not end in valid padding, as under a wrong key.
    Cipher,
    /// The decrypted frame is empty, so it holds no length byte.
    Malformed,
}

/// The public key that belongs to a private key: `g ^ private mod p`.
pub open spec fn public_key(p: nat, g: nat, private: nat) -> int {
    pow(g as int, private) % (p as int)
}

/// The secret that a private key and the peer's public key give:
/// `other_public ^ private mod p`.
pub open spec fn shared_secret(p: nat, private: nat, other_public: nat) -> int {
    pow(other_public as int, private) % (p as int)
}

/// The sixteen bytes of a key on the wire: the number in big-endian order,
/// with zero bytes in front.
pub open spec fn wire_key(value: nat) -> Seq<u8> {
    be_bytes(value, KEY_LEN as nat)
}

/// A frame: the ciphertext of a plaintext and its length byte.
pub open spec fn sealed(key: Seq<u8>, plaintext: Seq<u8>) -> Seq<u8> {
    aes_128_ecb_encrypted(key, framed(plaintext))
}

/// The message in a receive buffer: the buffer without the zero bytes
/// behind the ciphertext, decrypted and taken out of its frame.
pub open spec fn opened(key: Seq<u8>, data: Seq<u8>) -> Option<Seq<u8>> {
    unframed(aes_128_ecb_decrypted(key, stripped(data)))
}

/// Both parties of an exchange arrive at the same secret: each raises the
/// other's public key to its own private key, and both get the generator
/// raised to the product of the two private keys.
pub proof fn lemma_shared_secret_agrees(p: nat, g: nat, a_private: nat, b_private: nat)
    requires
        p > 0,
    ensures
        public_key(p, g, a_private) >= 0,
        public_key(p, g, b_private) >= 0,
        shared_secret(p, a_private, public_key(p, g, b_private) as nat) == shared_secret(
            p,
            b_private,
            public_key(p, g, a_private) as nat,
        ),
{
    let base = g as int;
    let modulus = p as int;
    lemma_pow_mod_noop(pow(base, b_private), a_private, modulus);
    lemma_pow_mod_noop(pow(base, a_private), b_private, modulus);
    lemma_pow_multiplies(base, b_private, a_private);
    lemma_pow_multiplies(base, a_private, b_private);
    lemma_mul_is_commutative(a_private as int, b_private as int);
}

/// A key that fits in sixteen bytes survives the wire: decoding its
/// encoding gives it back, and the encoding is sixteen bytes long.
pub proof fn lemma_wire_key_round_trip(value: u128)
    ensures
        wire_key(value as nat).len() == 16,
        be_value(wire_key(value as nat)) == value,
{
    lemma_radix_power_16();
    lemma_be_bytes_len(value as nat, 16);
    lemma_be_value_of_be_bytes(value as nat, 16);
}

/// Two parties that exchange their public keys in wire form derive the
/// same session key.
pub proof fn lemma_session_keys_agree(p: nat, g: nat, a_private: nat, b_private: nat)
    requires
        0 < p <= u128::MAX,
    ensures
        ({
            let a_wire = wire_key(public_key(p, g, a_private) as nat);
            let b_wire = wire_key(public_key(p, g, b_private) as nat);
            wire_key(shared_secret(p, a_private, be_value(b_wire)) as nat) == wire_key(
                shared_secret(p, b_private, be_value(a_wire)) as nat,
            )
        }),
{
    let a_public = public_key(p, g, a_private);
    let b_public = public_key(p, g, b_private);
    lemma_shared_secret_agrees(p, g, a_private, b_private);
    assert(0 <= a_public < p && 0 <= b_public < p);
    lemma_wire_key_round_trip(a_public as u128);
    lemma_wire_key_round_trip(b_public as u128);
}

/// A message of at most 255 bytes comes out of its frame as it went in,
/// where the cipher decrypts what it encrypted and no zero byte is taken
/// off the end of the ciphertext.
pub proof fn lemma_opened_sealed(key: Seq<u8>, plaintext: Seq<u8>)
    requires
        plaintext.len() <= MAX_EXACT_LEN,
        aes_128_ecb_decrypted(key, sealed(key, plaintext)) == framed(plaintext),
        stripped(sealed(key, plaintext)) == sealed(key, plaintext),
    ensures
        opened(key, sealed(key, plaintext)) == Some(plaintext),
{
    lemma_unframed_framed(plaintext);
}

/// Writes a number in sixteen bytes, most significant first: the bytes
/// that the number needs, behind as many zero bytes as it takes.
fn left_padded(key: u128) -> (buffer: KeyBytes)
    ensures
        buffer@ == wire_key(key as nat),
{
    let mut buffer = zero_key();
    let key_bytes = to_bytes_be(key);
    let count: usize = key_bytes.len();
    proof {
        lemma_shortest_fits_key(key_bytes@, key);
    }
    let offset: usize = KEY_LEN - count;
    let mut i: usize = 0;
    while i < count
        invariant
            i <= count,
            count == key_bytes@.len(),
            offset == KEY_LEN - count,
            count <= KEY_LEN,
            forall|j: int| 0 <= j < offset ==> buffer@[j] == 0,
            forall|j: int| 0 <= j < i ==> buffer@[offset + j] == key_bytes@[j],
        decreases count - i,
    {
        buffer[offset + i] = key_bytes[i];
        i = i + 1;
    }
    proof {
        assert(buffer@ =~= zero_bytes(offset as nat) + key_bytes@);
        lemma_be_bytes_of_padded(key_bytes@, KEY_LEN as nat);
    }
    buffer
}

/// What encrypting gives once the cipher has answered: the frame, or the
/// error that stands for the cipher's own.
pub fn encrypted_frame(outcome: Result<Vec<u8>, ErrorStack>) -> (result: Result<
    Vec<u8>,
    CryptoError,
>)
    ensures
        match outcome {
            Ok(output) => result matches Ok(frame) && frame@ == output@,
            Err(_) => result == Err::<Vec<u8>, CryptoError>(CryptoError::Cipher),
        },
{
    match outcome {
        Ok(output) => Ok(output),
        Err(_) => Err(CryptoError::Cipher),
    }
}

/// What decrypting gives once the cipher has answered: the message in the
/// decrypted frame, `Malformed` for a frame without a length byte, and
/// `Cipher` where the cipher refused.
pub fn decrypted_message(outcome: Result<Vec<u8>, ErrorStack>) -> (result: Result<
    Vec<u8>,
    CryptoError,
>)
    ensures
        match outcome {
            Ok(output) => match unframed(output@) {
                Some(message) => result matches Ok(found) && found@ == message,
                None => result == Err::<Vec<u8>, CryptoError>(CryptoError::Malformed),
            },
            Err(_) => result == Err::<Vec<u8>, CryptoError>(CryptoError::Cipher),
        },
{
    match outcome {
        Ok(output) => match unframe(output) {
            Some(message) => Ok(message),
            None => Err(CryptoError::Malformed),
        },
        Err(_) => Err(CryptoError::Cipher),
    }
}

/// The key agreement and the cipher of one connection.
pub trait Crypto {
    /// The modulus `p` of the exchange.
    spec fn modulus(&self) -> nat;

    /// The generator `g` of the exchange.
    spec fn generator(&self) -> nat;

    /// The key that the cipher uses.
    spec fn session_key(&self) -> Seq<u8>;

    /// The frame for a plaintext: the plaintext and its length modulo 256,
    /// encrypted under the session key. Equal plaintexts give equal frames.
    /// A frame of a plaintext of at most 255 bytes decrypts to that
    /// plaintext, unless its last block is all zero, which `decrypt` would
    /// take for the rest of a receive buffer; `survives_stripping` tells
    /// such a frame from the others.
    fn encrypt(&self, plaintext: &[u8]) -> (result: Result<Vec<u8>, CryptoError>)
        ensures
            plaintext@.len() >= MAX_CIPHER_INPUT <==> result == Err::<Vec<u8>, CryptoError>(
                CryptoError::TooLong,
            ),
            result != Err::<Vec<u8>, CryptoError>(CryptoError::Malformed),
            result matches Ok(frame) ==> frame@ == sealed(self.session_key(), plaintext@),
            result matches Ok(frame) ==> (plaintext@.len() <= MAX_EXACT_LEN && stripped(frame@)
                == frame@ ==> opened(self.session_key(), frame@) == Some(plaintext@)),
    ;

    /// The message in what was received: the zero bytes that a receive
    /// buffer holds behind the ciphertext are taken off, the rest is
    /// decrypted under the session key, and the message is taken out of
    /// its frame.
    fn decrypt(&self, ciphertext: &[u8]) -> (result: Result<Vec<u8>, CryptoError>)
        ensures
            stripped(ciphertext@).len() > MAX_CIPHER_INPUT <==> result == Err::<
                Vec<u8>,
                CryptoError,
            >(CryptoError::TooLong),
            result matches Ok(message) ==> opened(self.session_key(), ciphertext@) == Some(
                message@,
            ),
            result == Err::<Vec<u8>, CryptoError>(CryptoError::Malformed) ==> opened(
                self.session_key(),
                ciphertext@,
            ) is None,
    ;

    /// Derives the session key: the secret shared with the holder of
    /// `other_pub_key`, in its sixteen-byte form.
    fn handshake(&mut self, priv_key: u128, other_pub_key: u128)
        ensures
            final(self).session_key() == wire_key(
                shared_secret(old(self).modulus(), priv_key as nat, other_pub_key as nat) as nat,
            ),
            final(self).modulus() == old(self).modulus(),
            final(self).generator() == old(self).generator(),
    ;

    /// A public key in its wire form.
    fn serialize(&self, pub_key: u128) -> (bytes: KeyBytes)
        ensures
            bytes@ == wire_key(pub_key as nat),
    ;

    /// The number that sixteen bytes from the wire spell. Any sixteen bytes
    /// are taken, whether or not they are a public key of the group.
    fn deserialize(&self, pub_key: &KeyBytes) -> (value: u128)
        ensures
            value == be_value(pub_key@),
    ;

    /// Makes `key` the session key.
    fn init_key(&mut self, key: &KeyBytes)
        ensures
            final(self).session_key() == key@,
            final(self).modulus() == old(self).modulus(),
            final(self).generator() == old(self).generator(),
    ;

    /// A fresh private key, drawn at random from 1 to `p - 2`, and the
    /// wire form of the public key that belongs to it.
    fn generate_keys(&self) -> (keys: (u128, KeyBytes))
        ensures
            1 <= keys.0 <= self.modulus() - 2,
            keys.1@ == wire_key(
                public_key(self.modulus(), self.generator(), keys.0 as nat) as nat,
            ),
    ;

    /// The number in sixteen bytes, most significant first, with zero bytes
    /// in front.
    fn pad_be(&self, key: u128) -> (buffer: KeyBytes)
        ensures
            buffer@ == wire_key(key as nat),
    ;
}

/// Diffie-Hellman over a prime modulus, and AES-128 keyed by the secret.
pub struct PrimeDiffieHellman {
    p: usize,
    g: usize,
    key: KeyBytes,
}

impl Clone for PrimeDiffieHellman {
    fn clone(&self) -> (copy: Self)
        ensures
            copy == *self,
    {
        proof {
            use_type_invariant(self);
        }
        PrimeDiffieHellman { p: self.p, g: self.g, key: self.key }
    }
}

impl Default for PrimeDiffieHellman {
    fn default() -> (crypto: Self)
        ensures
            crypto.modulus() == 997,
            crypto.generator() == 2,
            crypto.session_key() == zero_bytes(16),
    {
        Self::new()
    }
}

impl PrimeDiffieHellman {
    /// A private key can only be drawn where the modulus leaves room for one.
    #[verifier::type_invariant]
    spec fn well_formed(self) -> bool {
        self.p >= 3
    }

    /// The exchange over the modulus 997 with the generator 2; the session
    /// key is all zero until a handshake sets it.
    pub fn new() -> (crypto: PrimeDiffieHellman)
        ensures
            crypto.modulus() == 997,
            crypto.generator() == 2,
            crypto.session_key() == zero_bytes(16),
    {
        PrimeDiffieHellman { key: zero_key(), p: 997, g: 2 }
    }

    /// Draws a private key at random from 1 to `p - 2`.
    pub fn gen_priv_key(&self) -> (priv_key: u128)
        ensures
            1 <= priv_key <= self.modulus() - 2,
    {
        proof {
            use_type_invariant(self);
        }
        let drawn: usize = gen_range(1, self.p - 1);
        drawn as u128
    }

    /// The public key of a private key.
    pub fn gen_pub_key(&self, priv_key: u128) -> (pub_key: u128)
        ensures
            pub_key == public_key(self.modulus(), self.generator(), priv_key as nat),
            pub_key < self.modulus(),
    {
        proof {
            use_type_invariant(self);
        }
        modpow(self.g as u128, priv_key, self.p as u128)
    }

    /// The secret shared with the holder of `other_pub_key`.
    pub fn compute_shared_secret(&self, priv_key: u128, other_pub_key: u128) -> (secret: u128)
        ensures
            secret == shared_secret(self.modulus(), priv_key as nat, other_pub_key as nat),
            secret < self.modulus(),
    {
        proof {
            use_type_invariant(self);
        }
        modpow(other_pub_key, priv_key, self.p as u128)
    }
}

impl Crypto for PrimeDiffieHellman {
    closed spec fn modulus(&self) -> nat {
        self.p as nat
    }

    closed spec fn generator(&self) -> nat {
        self.g as nat
    }

    closed spec fn session_key(&self) -> Seq<u8> {
        self.key@
    }

    fn pad_be(&self, key: u128) -> (buffer: KeyBytes) {
        left_padded(key)
    }

    fn serialize(&self, pub_key: u128) -> (bytes: KeyBytes) {
        self.pad_be(pub_key)
    }

    fn deserialize(&self, pub_key: &KeyBytes) -> (value: u128) {
        from_bytes_be(pub_key)
    }

    fn init_key(&mut self, key: &KeyBytes) {
        proof {
            use_type_invariant(&*self);
        }
        self.key = *key;
    }

    fn handshake(&mut self, priv_key: u128, other_pub_key: u128) {
        let shared_secret = self.compute_shared_secret(priv_key, other_pub_key);
        let shared_key = self.pad_be(shared_secret);
        self.init_key(&shared_key);
    }

    fn generate_keys(&self) -> (keys: (u128, KeyBytes)) {
        let priv_key = self.gen_priv_key();
        let pub_key = self.gen_pub_key(priv_key);
        let pubkey_bytes = self.serialize(pub_key);
        (priv_key, pubkey_bytes)
    }

    fn encrypt(&self, plaintext: &[u8]) -> (result: Result<Vec<u8>, CryptoError>) {
        if plaintext.len() >= MAX_CIPHER_INPUT {
            return Err(CryptoError::TooLong);
        }
        let input = frame(plaintext);
        proof {
            if plaintext@.len() <= MAX_EXACT_LEN {
                lemma_unframed_framed(plaintext@);
            }
        }
        encrypted_frame(aes_128_ecb_encrypt(&self.key, input.as_slice()))
    }

    fn decrypt(&self, ciphertext: &[u8]) -> (result: Result<Vec<u8>, CryptoError>) {
        let content = strip_buffer_padding(ciphertext);
        if content.len() > MAX_CIPHER_INPUT {
            return Err(CryptoError::TooLong);
        }
        decrypted_message(aes_128_ecb_decrypt(&self.key, content))
    }
}

} // verus!

//! The encrypted channel of one connection, without the connection: which
//! bytes go out and what the bytes that came in mean. The caller owns the
//! socket, writes what `dh_handshake` and `send` hand out, and hands what it
//! read to `establish` and `recv`.
//!
//! A read takes at most `RECEIVE_BUFFER_LEN` bytes, and `recv` is given
//! exactly the bytes that the read returned.

use crate::aes::MAX_CIPHER_INPUT;
use crate::crypto_utils::opened;
use crate::crypto_utils::public_key;
use crate::crypto_utils::sealed;
use crate::crypto_utils::shared_secret;
use crate::crypto_utils::wire_key;
use crate::crypto_utils::Crypto;
use crate::crypto_utils::CryptoError;
use crate::crypto_utils::PrimeDiffieHellman;
use crate::frame::stripped;
use crate::frame::MAX_EXACT_LEN;
use crate::text::from_utf8;
use crate::wire::be_value;
use crate::wire::zero_bytes;
use crate::wire::zero_key;
use crate::wire::KeyBytes;
use vstd::prelude::*;
use vstd::utf8::decode_utf8;
use vstd::utf8::encode_utf8;
use vstd::utf8::encode_utf8_decode_utf8;
use vstd::utf8::encode_utf8_valid_utf8;
use vstd::utf8::valid_utf8;

verus! {

/// How many bytes one read takes at most.
pub const RECEIVE_BUFFER_LEN: usize = 1024;

/// Where a channel stands.
#[derive(Debug, Clone, Copy, PartialEq, Eq, Structural)]
pub enum ChannelState {
    /// Nothing has been exchanged.
    Unestablished,
    /// The local key pair exists; the peer's public key is awaited.
    Handshaking,
    /// The session key is set; messages can be sent and received.
    Ready,
    /// The channel has been closed.
    Closed,
}

/// Why a channel could not do what was asked.
#[derive(Debug, Clone, Copy, PartialEq, Eq, Structural)]
pub enum ChannelError {
    /// The channel is not in the state `Ready`.
    NotReady,
    /// The cipher failed.
    Crypto(CryptoError),
}

/// What a read on a ready channel amounts to.
#[derive(Debug, PartialEq, Eq)]
pub enum Received {
    /// A message.
    Text(String),
    /// The read returned no bytes: the peer has closed the connection.
    EndOfStream,
    /// The bytes could not be decrypted, or are not UTF-8. Such a message
    /// is dropped and the connection goes on.
    Dropped,
}

/// What is received, as the contracts see it.
pub enum ReceivedText {
    Text(Seq<char>),
    EndOfStream,
    Dropped,
}

impl DeepView for Received {
    type V = ReceivedText;

    open spec fn deep_view(&self) -> ReceivedText {
        match self {
            Received::Text(text) => ReceivedText::Text(text@),
            Received::EndOfStream => ReceivedText::EndOfStream,
            Received::Dropped => ReceivedText::Dropped,
        }
    }
}

/// What decrypted bytes amount to: the text that they encode, or nothing
/// where they are not UTF-8 or the decryption failed.
pub open spec fn decoded(decrypted: Option<Seq<u8>>) -> ReceivedText {
    match decrypted {
        Some(bytes) => if valid_utf8(bytes) {
            ReceivedText::Text(decode_utf8(bytes))
        } else {
            ReceivedText::Dropped
        },
        None => ReceivedText::Dropped,
    }
}

/// What the bytes of one read amount to under a session key, where the
/// cipher does its part.
pub open spec fn received(key: Seq<u8>, raw: Seq<u8>) -> ReceivedText {
    if raw.len() == 0 {
        ReceivedText::EndOfStream
    } else {
        decoded(opened(key, raw))
    }
}

/// The bytes that encode a text decode to that text.
pub proof fn lemma_decoded_text(text: Seq<char>)
    ensures
        decoded(Some(encode_utf8(text))) == ReceivedText::Text(text),
{
    encode_utf8_valid_utf8(text);
    encode_utf8_decode_utf8(text);
}

/// Turns the outcome of a decryption into what was received.
pub fn decode_message(decrypted: Result<Vec<u8>, CryptoError>) -> (message: Received)
    ensures
        message.deep_view() == decoded(
            match decrypted {
                Ok(bytes) => Some(bytes@),
                Err(_) => None,
            },
        ),
{
    match decrypted {
        Ok(bytes) => match from_utf8(bytes.as_slice()) {
            Some(text) => Received::Text(text),
            None => Received::Dropped,
        },
        Err(_) => Received::Dropped,
    }
}

/// One end of an encrypted connection.
pub struct EncryptedStream {
    state: ChannelState,
    crypto: PrimeDiffieHellman,
    priv_key: u128,
}

impl EncryptedStream {
    /// Where the channel stands.
    pub closed spec fn state(&self) -> ChannelState {
        self.state
    }

    /// The session key.
    pub closed spec fn session_key(&self) -> Seq<u8> {
        self.crypto.session_key()
    }

    /// The local private key, zero before the handshake and after closing.
    pub closed spec fn private_key(&self) -> nat {
        self.priv_key as nat
    }

    /// The modulus of the exchange.
    pub closed spec fn modulus(&self) -> nat {
        self.crypto.modulus()
    }

    /// The generator of the exchange.
    pub closed spec fn generator(&self) -> nat {
        self.crypto.generator()
    }

    /// A channel on which nothing has been exchanged.
    pub fn new() -> (stream: EncryptedStream)
        ensures
            stream.state() == ChannelState::Unestablished,
            stream.session_key() == zero_bytes(16),
            stream.private_key() == 0,
            stream.modulus() == 997,
            stream.generator() == 2,
    {
        EncryptedStream {
            state: ChannelState::Unestablished,
            crypto: PrimeDiffieHellman::new(),
            priv_key: 0,
        }
    }

    /// Where the channel stands.
    pub fn current_state(&self) -> (state: ChannelState)
        ensures
            state == self.state(),
    {
        self.state
    }

    /// Starts the handshake: makes the local key pair and returns the
    /// public key in its wire form, to be sent to the peer. On a channel
    /// that has already started it changes nothing and returns `None`.
    pub fn dh_handshake(&mut self) -> (pub_key: Option<KeyBytes>)
        ensures
            old(self).state() != ChannelState::Unestablished ==> pub_key is None && *final(self)
                == *old(self),
            old(self).state() == ChannelState::Unestablished ==> {
                &&& pub_key is Some
                &&& final(self).state() == ChannelState::Handshaking
                &&& 1 <= final(self).private_key() <= final(self).modulus() - 2
                &&& pub_key->0@ == wire_key(
                    public_key(
                        final(self).modulus(),
                        final(self).generator(),
                        final(self).private_key(),
                    ) as nat,
                )
                &&& final(self).session_key() == old(self).session_key()
                &&& final(self).modulus() == old(self).modulus()
                &&& final(self).generator() == old(self).generator()
            },
    {
        match self.state {
            ChannelState::Unestablished => {
                let (priv_key, pub_key) = self.crypto.generate_keys();
                self.priv_key = priv_key;
                self.state = ChannelState::Handshaking;
                Some(pub_key)
            },
            _ => None,
        }
    }

    /// Completes the handshake with the peer's public key as it came over
    /// the wire: computes the shared secret and makes it the session key.
    /// Any sixteen bytes are taken. On a channel that is not in its
    /// handshake it changes nothing and returns `false`.
    pub fn establish(&mut self, peer_key: &KeyBytes) -> (ready: bool)
        ensures
            ready == (old(self).state() == ChannelState::Handshaking),
            !ready ==> *final(self) == *old(self),
            ready ==> {
                &&& final(self).state() == ChannelState::Ready
                &&& final(self).session_key() == wire_key(
                    shared_secret(
                        old(self).modulus(),
                        old(self).private_key(),
                        be_value(peer_key@),
                    ) as nat,
                )
                &&& final(self).private_key() == old(self).private_key()
                &&& final(self).modulus() == old(self).modulus()
                &&& final(self).generator() == old(self).generator()
            },
    {
        match self.state {
            ChannelState::Handshaking => {
                let other_pub_key = self.crypto.deserialize(peer_key);
                self.crypto.handshake(self.priv_key, other_pub_key);
                self.state = ChannelState::Ready;
                true
            },
            _ => false,
        }
    }

    /// Closes the channel and forgets its keys. Closing again changes
    /// nothing more: every channel that was closed is in the same state.
    pub fn close(&mut self)
        ensures
            final(self).state() == ChannelState::Closed,
            final(self).private_key() == 0,
            final(self).session_key() == zero_bytes(16),
            final(self).modulus() == old(self).modulus(),
            final(self).generator() == old(self).generator(),
    {
        let zero = zero_key();
        self.crypto.init_key(&zero);
        self.priv_key = 0;
        self.state = ChannelState::Closed;
    }

    /// A second handle on the same channel, with the same keys, so that one
    /// task can read while another writes.
    pub fn try_clone(&self) -> (handle: EncryptedStream)
        ensures
            handle == *self,
    {
        EncryptedStream {
            state: self.state,
            crypto: self.crypto.clone(),
            priv_key: self.priv_key,
        }
    }

    /// The frame that carries `msg` to the peer, to be written to the
    /// connection in one piece. Only a ready channel sends.
    pub fn send(&self, msg: &str) -> (frame: Result<Vec<u8>, ChannelError>)
        ensures
            self.state() != ChannelState::Ready <==> frame == Err::<Vec<u8>, ChannelError>(
                ChannelError::NotReady,
            ),
            self.state() == ChannelState::Ready ==> (encode_utf8(msg@).len() >= MAX_CIPHER_INPUT
                <==> frame == Err::<Vec<u8>, ChannelError>(
                ChannelError::Crypto(CryptoError::TooLong),
            )),
            frame != Err::<Vec<u8>, ChannelError>(ChannelError::Crypto(CryptoError::Malformed)),
            frame matches Ok(bytes) ==> bytes@ == sealed(self.session_key(), encode_utf8(msg@)),
            frame matches Ok(bytes) ==> (encode_utf8(msg@).len() <= MAX_EXACT_LEN && stripped(
                bytes@,
            ) == bytes@ && bytes@.len() > 0 ==> received(self.session_key(), bytes@)
                == ReceivedText::Text(msg@)),
    {
        match self.state {
            ChannelState::Ready => {
                match self.crypto.encrypt(msg.as_bytes()) {
                    Ok(bytes) => {
                        proof {
                            lemma_decoded_text(msg@);
                        }
                        Ok(bytes)
                    },
                    Err(error) => Err(ChannelError::Crypto(error)),
                }
            },
            _ => Err(ChannelError::NotReady),
        }
    }

    /// What the bytes of one read amount to: the end of the stream where
    /// the read returned nothing, else the text in the frame, or nothing
    /// where the frame cannot be decrypted or does not hold UTF-8. Only a
    /// ready channel receives.
    pub fn recv(&self, raw: &[u8]) -> (message: Result<Received, ChannelError>)
        ensures
            self.state() != ChannelState::Ready <==> message is Err,
            message is Err ==> message == Err::<Received, ChannelError>(ChannelError::NotReady),
            message matches Ok(got) ==> (got is EndOfStream <==> raw@.len() == 0),
            message matches Ok(got) ==> (got is Text ==> got.deep_view() == received(
                self.session_key(),
                raw@,
            )),
            message matches Ok(got) ==> (stripped(raw@).len() > MAX_CIPHER_INPUT ==> got is Dropped),
    {
        match self.state {
            ChannelState::Ready => {
                if raw.len() == 0 {
                    Ok(Received::EndOfStream)
                } else {
                    Ok(decode_message(self.crypto.decrypt(raw)))
                }
            },
            _ => Err(ChannelError::NotReady),
        }
    }

    /// The same as `recv`.
    pub fn receive(&self, raw: &[u8]) -> (message: Result<Received, ChannelError>)
        ensures
            self.state() != ChannelState::Ready <==> message is Err,
            message is Err ==> message == Err::<Received, ChannelError>(ChannelError::NotReady),
            message matches Ok(got) ==> (got is EndOfStream <==> raw@.len() == 0),
            message matches Ok(got) ==> (got is Text ==> got.deep_view() == received(
                self.session_key(),
                raw@,
            )),
            message matches Ok(got) ==> (stripped(raw@).len() > MAX_CIPHER_INPUT ==> got is Dropped),
    {
        self.recv(raw)
    }
}

} // verus!

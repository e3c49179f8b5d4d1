//! An encrypted multi-client text chat: key agreement, message framing,
//! the per-connection channel and the server's session state machine.
//!
//! Nothing here touches a socket. The caller reads and writes; the library
//! says which bytes to write and what the bytes that were read mean.

pub mod acceptor;
pub mod aes;
pub mod bigint;
pub mod client;
pub mod crypto_utils;
pub mod encstream;
pub mod fibonacci;
pub mod frame;
pub mod random;
pub mod server;
pub mod server_laws;
pub mod text;
pub mod wire;

pub use acceptor::handle_stream;
pub use acceptor::StreamStep;
pub use crypto_utils::Crypto;
pub use crypto_utils::CryptoError;
pub use crypto_utils::PrimeDiffieHellman;
pub use encstream::ChannelError;
pub use encstream::ChannelState;
pub use encstream::EncryptedStream;
pub use encstream::Received;
pub use fibonacci::fib;
pub use server::Action;
pub use server::ChatServer;
pub use server::ConnectionId;
pub use server::Message;
pub use wire::KeyBytes;

//! SRD (Secure Remote Delegation): a four-message mutual-authentication and
//! key-agreement protocol.  A client and a server run a step-driven state
//! machine that performs a Diffie-Hellman exchange over a fixed set of
//! modular groups, derives delegation, integrity and IV key material from
//! nonces plus the shared secret, frames a small family of typed messages
//! under a rolling transcript MAC, optionally binds the session to an
//! external channel certificate, negotiates a cipher, and finally delivers
//! an encrypted credential blob from the client to the server.

pub mod blobs;
pub mod cipher;
pub mod codec;
pub mod crypto;
pub mod dh_params;
pub mod errors;
pub mod message_types;
pub mod messages;
pub mod now_auth;
pub mod packets;
pub mod scheme;
pub mod srd;

pub use cipher::Cipher;
pub use errors::SrdError;
pub use srd::Srd;

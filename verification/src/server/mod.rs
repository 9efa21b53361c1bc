//! The protocol logic of the MTProto server and client: transport framing,
//! message identifiers and envelopes, the key exchange derivations and the
//! mailbox keys of conversations.
pub mod transport;
pub mod session;
pub mod key_exchange;
pub mod login;
pub mod mailbox;
pub mod plain_session;
pub mod key_math;
pub mod auth_flow;
pub mod connection;
pub mod obfuscation;

//! A terminal chat over a relay that cannot read it: the protocol, the relay's
//! rooms, the friend store, and what the client decides.

pub mod app_data_encryption;
pub mod app_driven_storage;
pub mod bytes;
pub mod client;
pub mod encryption;
pub mod failure;
pub mod message;
pub mod protocol;
pub mod relay;
pub mod storage;
pub mod talk_to_server;
pub mod terminal;
pub mod text;
pub mod user_driven_settings;

//! Verified core of the Accord chat client: key handling, the at-rest and vault
//! encryption formats, the local message-history log, peer selection, and the
//! small decision procedures the client's commands are built from.

pub mod text;
pub mod bytes_chars;
pub mod hex;
pub mod strset;
pub mod bytes;
pub mod error;
pub mod backup;
pub mod hashing;
pub mod identity;
pub mod at_rest;
pub mod history;
pub mod peers;
pub mod mesh;
pub mod taverns;
pub mod settings;
pub mod contacts;
pub mod friends;
pub mod device;
pub mod dto;
pub mod dm;
pub mod groups;
pub mod messaging;
pub mod voice;
pub mod hosting;
pub mod accounts;
pub mod sessions;
pub mod sync_state;
pub mod mls;
pub mod vault;
pub mod mls_engine;

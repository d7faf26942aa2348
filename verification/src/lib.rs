//! Hydrogen: the packet and protocol layer of a game server for the Hazel
//! network protocol, with the byte-level codecs and protocol decisions proved
//! against their specifications.

pub mod connection;
pub mod inner;
pub mod manager;
pub mod matchmaker;
pub mod networking;
pub mod protocol;
pub mod util;

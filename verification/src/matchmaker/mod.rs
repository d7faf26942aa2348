#![allow(non_snake_case)]
use vstd::prelude::*;

pub mod handler;

verus! {

/// Where the game server listens: an IPv4 address as a number, and a port.
pub struct HostServer {
    pub ip: u32,
    pub port: u16,
}

/// What a client sends to get a token.
pub struct UserTokenRequestData {
    pub puid: String,
    pub username: String,
    pub clientVersion: i32,
    pub language: i8,
}

} // verus!

pub mod blocking;
pub mod cache_key;
pub mod config;
pub mod runtime;
pub mod from_bytes;
pub mod msg;
pub mod multicast;
pub mod net;
pub mod option;
pub mod platform;
pub mod req;
pub mod resp;
pub mod retry;
pub mod server;
pub mod time;
pub mod to_bytes;
pub mod utf8;
pub mod toad_string;

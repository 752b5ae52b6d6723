//! The protocol side of a Minecraft server probe: what to send to a server,
//! and what the bytes that come back say of it. The crate opens no socket.
//! A caller sends the packets built here, reads what the step functions ask
//! for, and hands the bytes back.

pub mod auth;
pub mod chars;
pub mod codec;
pub mod compression;
pub mod config;
pub mod endpoint;
pub mod error;
pub mod login;
pub mod packets;
pub mod report;
pub mod status;
pub mod text;
pub mod varint;

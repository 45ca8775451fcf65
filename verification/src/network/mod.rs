//! What server and client say to each other.

pub mod message;
pub mod mirror;

pub use message::{
    client_channel, server_channel, Channel, ClientMessage, ClientMessages, Column, Columns,
    ServerMessage, ServerMessages,
};

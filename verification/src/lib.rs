//! Request parsing, resource addressing and sector buffers of a pixel canvas server.
pub mod clock;
pub mod database;
pub mod decimal;
pub mod filter;
pub mod len;
pub mod text;

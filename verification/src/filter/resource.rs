//! What requests draw on besides their own text.
pub mod users;

//! Request filters: headers, bodies and paginated responses.
pub mod body;
pub mod header;
pub mod resource;
pub mod response;

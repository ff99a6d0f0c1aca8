//! Shapes of responses: paginated listings.
pub mod paginated_list;

//! Rows to insert into the store.
use vstd::prelude::*;

verus! {

/// A board to insert.
#[derive(Debug, Clone)]
pub struct NewBoard {
    pub name: String,
    pub created_at: i64,
    pub shape: String,
    pub mask: Vec<u8>,
    pub initial: Vec<u8>,
}

/// A placement to insert.
#[derive(Debug, Clone)]
pub struct NewPlacement {
    pub board: i32,
    pub position: i64,
    pub color: i16,
    pub timestamp: i32,
    pub user_id: Option<String>,
}

} // verus!

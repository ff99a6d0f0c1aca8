//! Resources of the canvas and the specifiers that address them.
pub mod ban;
pub mod board;
pub mod board_notice;
pub mod color;
pub mod faction;
pub mod faction_member;
pub mod filter;
pub mod icon;
pub mod model;
pub mod notice;
pub mod placement;
pub mod report;
pub mod role;
pub mod sector;
pub mod specifier;
pub mod user;
pub mod users;

//! Core rules of the anime catalogue service: error mapping, paging,
//! query building, identifier handling, authentication and permission checks.

pub mod errors;
pub mod text;
pub mod catalog;
pub mod ids;
pub mod pagination;
pub mod listing;
pub mod groups;
pub mod password;
pub mod users;
pub mod auth;
pub mod producers;
pub mod jikan;

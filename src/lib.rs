//! A store for users, a media catalogue, ratings and activity history, with
//! the rules of its tables proved, and the mapping of its outcomes to HTTP
//! replies.
pub mod records;
pub mod text;
mod outside;
pub mod store;
pub mod laws;
pub mod api;

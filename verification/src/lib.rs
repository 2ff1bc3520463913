//! An in-memory library catalog: books, members, and the checkout/return,
//! search and listing operations over them.
//!
//! Books and members are stored in insertion order and carry sequential
//! identifiers starting at 1; identifiers are never reused. The catalog
//! maintains the invariant that a book is unavailable exactly when it has a
//! due timestamp, and exactly when exactly one member's borrowed list holds
//! its id.

pub mod book;
pub mod catalog;
pub mod error;
pub mod laws;
pub mod member;
pub mod text;

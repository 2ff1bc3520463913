//! A book record and the spec-level descriptions of how checkout and return
//! change one.

use vstd::prelude::*;

verus! {

/// One book of the catalog. `id` is assigned sequentially by the catalog,
/// starting at 1. `available` is false exactly while the book is checked
/// out, and `due_date` (whole seconds since the Unix epoch) is set exactly
/// then.
#[derive(Debug, Clone)]
pub struct Book {
    pub id: u32,
    pub title: String,
    pub author: String,
    pub isbn: String,
    pub available: bool,
    pub due_date: Option<u64>,
}

/// `b` marked as checked out until `due`.
pub open spec fn checked_out_book(b: Book, due: u64) -> Book {
    Book { available: false, due_date: Some(due), ..b }
}

/// `b` marked as returned: available again, with no due timestamp.
pub open spec fn returned_book(b: Book) -> Book {
    Book { available: true, due_date: None, ..b }
}

} // verus!

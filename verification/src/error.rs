//! The errors a catalog operation can report.

use vstd::prelude::*;

verus! {

/// The kind of record an operation failed to find.
#[derive(Clone, Copy, Debug, PartialEq, Eq, Structural)]
pub enum EntityKind {
    Book,
    Member,
}

/// Why a catalog operation was refused. Every failure is reported
/// synchronously; no operation leaves the catalog partially updated.
#[derive(Clone, Copy, Debug, PartialEq, Eq, Structural)]
pub enum LibraryError {
    /// The given book or member id resolves to no record.
    NotFound(EntityKind),
    /// The book is already checked out.
    Unavailable,
    /// The member's borrowed list does not hold the book.
    NotBorrowedByMember,
}

impl LibraryError {
    /// The human-readable description of this error.
    pub open spec fn spec_message(self) -> Seq<char> {
        match self {
            LibraryError::NotFound(EntityKind::Book) => "Book not found"@,
            LibraryError::NotFound(EntityKind::Member) => "Member not found"@,
            LibraryError::Unavailable => "Book is not available"@,
            LibraryError::NotBorrowedByMember => "This member has not borrowed this book"@,
        }
    }

    /// Returns the human-readable description of this error.
    pub fn message(&self) -> (r: &'static str)
        ensures
            r@ == self.spec_message(),
    {
        match self {
            LibraryError::NotFound(EntityKind::Book) => "Book not found",
            LibraryError::NotFound(EntityKind::Member) => "Member not found",
            LibraryError::Unavailable => "Book is not available",
            LibraryError::NotBorrowedByMember => "This member has not borrowed this book",
        }
    }
}

} // verus!

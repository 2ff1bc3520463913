use book_catalog::catalog::{Library, LOAN_PERIOD_SECONDS};
use book_catalog::error::{EntityKind, LibraryError};

#[test]
fn ids_start_at_one_and_increase_independently() {
    let mut library = Library::new();
    let b1 = library.add_book("A".to_string(), "B".to_string(), "C".to_string());
    let b2 = library.add_book("D".to_string(), "E".to_string(), "F".to_string());
    let m1 = library.add_member("G".to_string());
    let b3 = library.add_book("H".to_string(), "I".to_string(), "J".to_string());
    let m2 = library.add_member("K".to_string());
    assert_eq!(b1, 1);
    assert_eq!(b2, 2);
    assert_eq!(b3, 3);
    assert_eq!(m1, 1);
    assert_eq!(m2, 2);
}

#[test]
fn checkout_sets_due_date_to_now_plus_loan_period() {
    let mut library = Library::new();
    let book_id = library.add_book("A".to_string(), "B".to_string(), "C".to_string());
    let member_id = library.add_member("D".to_string());
    let now: u64 = 1000;
    library.check_out_book_at(book_id, member_id, now).unwrap();
    let book = library.get_book(book_id).unwrap();
    assert_eq!(book.due_date, Some(now + LOAN_PERIOD_SECONDS));
    assert_eq!(book.due_date, Some(1_210_600));
    assert!(!book.available);
}

#[test]
fn checkout_appends_book_id_exactly_once() {
    let mut library = Library::new();
    let b1 = library.add_book("A".to_string(), "B".to_string(), "C".to_string());
    let b2 = library.add_book("D".to_string(), "E".to_string(), "F".to_string());
    let member_id = library.add_member("G".to_string());
    library.check_out_book(b1, member_id).unwrap();
    library.check_out_book(b2, member_id).unwrap();
    let member = library.get_member(member_id).unwrap();
    assert_eq!(member.borrowed_books, vec![b1, b2]);
}

#[test]
fn checkout_error_kinds_in_order() {
    let mut library = Library::new();
    let book_id = library.add_book("A".to_string(), "B".to_string(), "C".to_string());
    let member_id = library.add_member("D".to_string());

    // Missing book comes first, even when the member is missing too.
    assert_eq!(
        library.check_out_book(999, 999),
        Err(LibraryError::NotFound(EntityKind::Book))
    );
    // Valid book, missing member.
    assert_eq!(
        library.check_out_book(book_id, 999),
        Err(LibraryError::NotFound(EntityKind::Member))
    );
    // Already checked out.
    library.check_out_book(book_id, member_id).unwrap();
    assert_eq!(
        library.check_out_book(book_id, member_id),
        Err(LibraryError::Unavailable)
    );
}

#[test]
fn return_error_kinds_in_order() {
    let mut library = Library::new();
    let book_id = library.add_book("A".to_string(), "B".to_string(), "C".to_string());
    let member_id = library.add_member("D".to_string());
    assert_eq!(
        library.return_book(999, member_id),
        Err(LibraryError::NotFound(EntityKind::Book))
    );
    assert_eq!(
        library.return_book(book_id, 999),
        Err(LibraryError::NotFound(EntityKind::Member))
    );
    assert_eq!(
        library.return_book(book_id, member_id),
        Err(LibraryError::NotBorrowedByMember)
    );
}

#[test]
fn return_book_not_borrowed_by_that_member() {
    let mut library = Library::new();
    let book_id = library.add_book("A".to_string(), "B".to_string(), "C".to_string());
    let borrower = library.add_member("D".to_string());
    let other = library.add_member("E".to_string());
    library.check_out_book(book_id, borrower).unwrap();
    // The book is out, but not to this member.
    assert_eq!(
        library.return_book(book_id, other),
        Err(LibraryError::NotBorrowedByMember)
    );
}

#[test]
fn checkout_then_return_restores_state() {
    let mut library = Library::new();
    let book_id = library.add_book(
        "Title".to_string(),
        "Author".to_string(),
        "978-0000000000".to_string(),
    );
    let member_id = library.add_member("Name".to_string());

    library.check_out_book(book_id, member_id).unwrap();
    library.return_book(book_id, member_id).unwrap();

    let book = library.get_book(book_id).unwrap();
    assert_eq!(book.id, book_id);
    assert_eq!(book.title, "Title");
    assert_eq!(book.author, "Author");
    assert_eq!(book.isbn, "978-0000000000");
    assert!(book.available);
    assert_eq!(book.due_date, None);

    let member = library.get_member(member_id).unwrap();
    assert_eq!(member.id, member_id);
    assert_eq!(member.name, "Name");
    assert!(member.borrowed_books.is_empty());
}

#[test]
fn search_is_case_insensitive_on_title_and_author() {
    let mut library = Library::new();
    library.add_book(
        "Rust Programming".to_string(),
        "Author One".to_string(),
        "111-1111111".to_string(),
    );
    library.add_book(
        "Python Programming".to_string(),
        "Author Two".to_string(),
        "222-2222222".to_string(),
    );

    // The query is folded: an all-caps query still finds the title.
    let hits = library.search_books("PYTHON");
    assert_eq!(hits.len(), 1);
    assert_eq!(hits[0].title, "Python Programming");

    // The title is folded too: a lowercase query finds the capitalized title.
    let hits = library.search_books("rust");
    assert_eq!(hits.len(), 1);
    assert_eq!(hits[0].title, "Rust Programming");

    // A query matching in the middle of a word is still a hit.
    let hits = library.search_books("gram");
    assert_eq!(hits.len(), 2);

    let hits = library.search_books("author two");
    assert_eq!(hits.len(), 1);
    assert_eq!(hits[0].author, "Author Two");
}

#[test]
fn search_is_case_sensitive_on_isbn() {
    let mut library = Library::new();
    library.add_book("Xyz".to_string(), "Qrs".to_string(), "ABC-1".to_string());

    let hits = library.search_books("ABC");
    assert_eq!(hits.len(), 1);

    // Lowercase does not match the isbn, and matches no title or author.
    let hits = library.search_books("abc");
    assert_eq!(hits.len(), 0);
}

#[test]
fn search_empty_query_matches_every_book() {
    let mut library = Library::new();
    library.add_book("A".to_string(), "B".to_string(), "C".to_string());
    library.add_book("D".to_string(), "E".to_string(), "F".to_string());
    let hits = library.search_books("");
    assert_eq!(hits.len(), 2);
}

#[test]
fn search_empty_catalog_finds_nothing() {
    let library = Library::new();
    assert_eq!(library.search_books("anything").len(), 0);
}

#[test]
fn get_member_books_keeps_borrowed_order() {
    let mut library = Library::new();
    let b1 = library.add_book("First".to_string(), "A".to_string(), "1".to_string());
    let b2 = library.add_book("Second".to_string(), "B".to_string(), "2".to_string());
    let member_id = library.add_member("M".to_string());
    library.check_out_book(b2, member_id).unwrap();
    library.check_out_book(b1, member_id).unwrap();

    let books = library.get_member_books(member_id).unwrap();
    assert_eq!(books.len(), 2);
    assert_eq!(books[0].title, "Second");
    assert_eq!(books[1].title, "First");
}

#[test]
fn error_messages() {
    assert_eq!(
        LibraryError::NotFound(EntityKind::Book).message(),
        "Book not found"
    );
    assert_eq!(
        LibraryError::NotFound(EntityKind::Member).message(),
        "Member not found"
    );
    assert_eq!(LibraryError::Unavailable.message(), "Book is not available");
    assert_eq!(
        LibraryError::NotBorrowedByMember.message(),
        "This member has not borrowed this book"
    );
}

#[test]
fn failed_operations_leave_the_catalog_untouched() {
    let mut library = Library::new();
    let book_id = library.add_book("A".to_string(), "B".to_string(), "C".to_string());
    let member_id = library.add_member("D".to_string());

    assert!(library.check_out_book(999, member_id).is_err());
    assert!(library.return_book(book_id, member_id).is_err());

    let book = library.get_book(book_id).unwrap();
    assert!(book.available);
    assert_eq!(book.due_date, None);
    let member = library.get_member(member_id).unwrap();
    assert!(member.borrowed_books.is_empty());
}

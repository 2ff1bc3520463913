use book_catalog::catalog::Library;

fn setup_library() -> (Library, u32, u32) {
    let mut library = Library::new();
    let book_id = library.add_book(
        "Test Book".to_string(),
        "Test Author".to_string(),
        "123-4567890".to_string(),
    );
    let member_id = library.add_member("Test Member".to_string());
    (library, book_id, member_id)
}

#[test]
fn test_add_book() {
    let mut library = Library::new();
    let book_id = library.add_book(
        "Test Book".to_string(),
        "Test Author".to_string(),
        "123-4567890".to_string(),
    );

    assert_eq!(book_id, 1);
    let book = library.get_book(book_id).unwrap();
    assert_eq!(book.title, "Test Book");
    assert_eq!(book.author, "Test Author");
    assert_eq!(book.isbn, "123-4567890");
    assert!(book.available);
    assert!(book.due_date.is_none());
}

#[test]
fn test_add_member() {
    let mut library = Library::new();
    let member_id = library.add_member("Test Member".to_string());

    assert_eq!(member_id, 1);
    let member = library.get_member(member_id).unwrap();
    assert_eq!(member.name, "Test Member");
    assert!(member.borrowed_books.is_empty());
}

#[test]
fn test_check_out_book_success() {
    let (mut library, book_id, member_id) = setup_library();

    let result = library.check_out_book(book_id, member_id);
    assert!(result.is_ok());

    let book = library.get_book(book_id).unwrap();
    assert!(!book.available);
    assert!(book.due_date.is_some());

    let member = library.get_member(member_id).unwrap();
    assert!(member.borrowed_books.contains(&book_id));
}

#[test]
fn test_check_out_book_not_found() {
    let (mut library, _, member_id) = setup_library();

    let result = library.check_out_book(999, member_id);
    assert!(result.is_err());
    assert_eq!(result.unwrap_err().message(), "Book not found");
}

#[test]
fn test_check_out_book_not_available() {
    let (mut library, book_id, member_id) = setup_library();

    // Check out the book first
    library.check_out_book(book_id, member_id).unwrap();

    // Try to check out the same book again
    let result = library.check_out_book(book_id, member_id);
    assert!(result.is_err());
    assert_eq!(result.unwrap_err().message(), "Book is not available");
}

#[test]
fn test_return_book_success() {
    let (mut library, book_id, member_id) = setup_library();

    // Check out the book first
    library.check_out_book(book_id, member_id).unwrap();

    // Return the book
    let result = library.return_book(book_id, member_id);
    assert!(result.is_ok());

    let book = library.get_book(book_id).unwrap();
    assert!(book.available);
    assert!(book.due_date.is_none());

    let member = library.get_member(member_id).unwrap();
    assert!(!member.borrowed_books.contains(&book_id));
}

#[test]
fn test_return_book_not_borrowed() {
    let (mut library, book_id, member_id) = setup_library();

    // Try to return a book that wasn't checked out
    let result = library.return_book(book_id, member_id);
    assert!(result.is_err());
    assert_eq!(
        result.unwrap_err().message(),
        "This member has not borrowed this book"
    );
}

#[test]
fn test_search_books() {
    let mut library = Library::new();
    library.add_book(
        "Rust Programming".to_string(),
        "Author One".to_string(),
        "111-1111111".to_string(),
    );
    library.add_book(
        "Python Programming".to_string(),
        "Author Two".to_string(),
        "222-2222222".to_string(),
    );

    let rust_books = library.search_books("Rust");
    assert_eq!(rust_books.len(), 1);
    assert_eq!(rust_books[0].title, "Rust Programming");

    let author_books = library.search_books("Author");
    assert_eq!(author_books.len(), 2);
}

#[test]
fn test_get_member_books() {
    let (mut library, book_id, member_id) = setup_library();

    // Initially no books
    let result = library.get_member_books(member_id);
    assert!(result.is_ok());
    assert_eq!(result.unwrap().len(), 0);

    // Check out a book
    library.check_out_book(book_id, member_id).unwrap();

    // Should now have one book
    let result = library.get_member_books(member_id);
    assert!(result.is_ok());
    assert_eq!(result.unwrap().len(), 1);
}

#[test]
fn test_get_member_books_member_not_found() {
    let (library, _, _) = setup_library();

    let result = library.get_member_books(999);
    assert!(result.is_err());
    assert_eq!(result.unwrap_err().message(), "Member not found");
}

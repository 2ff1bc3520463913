//! The catalog itself: the book and member stores, the id counters, and the
//! operations over them.
//!
//! Books and members are kept in insertion order, and ids are assigned
//! sequentially starting at 1, so the record with id `n` sits at index
//! `n - 1`; no operation ever removes a record, so ids are never reused.

use vstd::prelude::*;
use crate::book::{Book, checked_out_book, returned_book};
use crate::error::{EntityKind, LibraryError};
use crate::member::{Member, MemberModel, member_with_borrow, member_without_borrow};
use crate::text::book_matches;

verus! {

/// The books of `books` that are hits for the query `q`, in store order.
pub open spec fn search_results(books: Seq<Book>, q: Seq<char>) -> Seq<Book> {
    books.filter(|b: Book| book_matches(b, q))
}

/// The books a sequence of references points at.
pub open spec fn deref_books(s: Seq<&Book>) -> Seq<Book> {
    s.map_values(|b: &Book| *b)
}

/// The loan period: fourteen days, in whole seconds.
pub const LOAN_PERIOD_SECONDS: u64 = 1209600;

/// The model of the whole catalog: the two record stores as sequences, and
/// the two id counters.
#[verifier::ext_equal]
pub ghost struct LibraryModel {
    pub books: Seq<Book>,
    pub members: Seq<MemberModel>,
    pub next_book_id: u32,
    pub next_member_id: u32,
}

impl LibraryModel {
    /// `id` resolves to a book.
    pub open spec fn has_book(self, id: u32) -> bool {
        1 <= id && id <= self.books.len()
    }

    /// The book with the given id (meaningful when `has_book(id)`).
    pub open spec fn book(self, id: u32) -> Book {
        self.books[id - 1]
    }

    /// `id` resolves to a member.
    pub open spec fn has_member(self, id: u32) -> bool {
        1 <= id && id <= self.members.len()
    }

    /// The member with the given id (meaningful when `has_member(id)`).
    pub open spec fn member(self, id: u32) -> MemberModel {
        self.members[id - 1]
    }

    /// `(j, k)` indexes an entry of some member's borrowed list.
    pub open spec fn valid_entry(self, j: int, k: int) -> bool {
        0 <= j < self.members.len() && 0 <= k < self.members[j].borrowed.len()
    }

    /// The book id that entry `(j, k)` holds.
    pub open spec fn entry(self, j: int, k: int) -> u32 {
        self.members[j].borrowed[k]
    }

    /// Every borrowed-list entry names an existing, checked-out book.
    pub open spec fn entries_sound(self) -> bool {
        forall|j: int, k: int|
            self.valid_entry(j, k) ==> self.has_book(#[trigger] self.entry(j, k)) && !self.book(
                self.entry(j, k),
            ).available
    }

    /// A book id stands in at most one borrowed list, at most once.
    pub open spec fn entries_unique(self) -> bool {
        forall|j1: int, k1: int, j2: int, k2: int|
            self.valid_entry(j1, k1) && self.valid_entry(j2, k2) && #[trigger] self.entry(j1, k1)
                == #[trigger] self.entry(j2, k2) ==> j1 == j2 && k1 == k2
    }

    /// Every checked-out book stands in some member's borrowed list.
    pub open spec fn entries_complete(self) -> bool {
        forall|i: int|
            0 <= i < self.books.len() && !(#[trigger] self.books[i]).available ==> exists|
                j: int,
                k: int,
            |
                self.valid_entry(j, k) && self.entry(j, k) == i + 1
    }

    /// The catalog invariant: ids are sequential from 1 and match positions,
    /// the counters sit one past the stores, a book has a due timestamp
    /// exactly while it is unavailable, and the borrowed lists and the
    /// availability flags agree.
    pub open spec fn wf(self) -> bool {
        &&& self.next_book_id == self.books.len() + 1
        &&& self.next_member_id == self.members.len() + 1
        &&& forall|i: int| 0 <= i < self.books.len() ==> (#[trigger] self.books[i]).id == i + 1
        &&& forall|i: int| 0 <= i < self.members.len() ==> (#[trigger] self.members[i]).id == i + 1
        &&& forall|i: int|
            0 <= i < self.books.len() ==> ((#[trigger] self.books[i]).available <==> self.books[i].due_date is None)
        &&& self.entries_sound()
        &&& self.entries_unique()
        &&& self.entries_complete()
    }

    /// The catalog after a book is added: the new book is appended with the
    /// current counter as id, available and with no due timestamp, and the
    /// book counter moves up by one.
    pub open spec fn after_add_book(self, title: String, author: String, isbn: String) -> LibraryModel {
        LibraryModel {
            books: self.books.push(
                Book {
                    id: self.next_book_id,
                    title,
                    author,
                    isbn,
                    available: true,
                    due_date: None,
                },
            ),
            next_book_id: (self.next_book_id + 1) as u32,
            ..self
        }
    }

    /// The catalog after a member is added: the new member is appended with
    /// the current counter as id and an empty borrowed list, and the member
    /// counter moves up by one.
    pub open spec fn after_add_member(self, name: String) -> LibraryModel {
        LibraryModel {
            members: self.members.push(
                MemberModel { id: self.next_member_id, name, borrowed: Seq::empty() },
            ),
            next_member_id: (self.next_member_id + 1) as u32,
            ..self
        }
    }

    /// Checkout is allowed: both records exist and the book is available.
    pub open spec fn can_check_out(self, book_id: u32, member_id: u32) -> bool {
        self.has_book(book_id) && self.has_member(member_id) && self.book(book_id).available
    }

    /// The catalog after a successful checkout: the book becomes unavailable
    /// with `due` as its due timestamp, and its id is appended to the
    /// member's borrowed list.
    pub open spec fn after_check_out(self, book_id: u32, member_id: u32, due: u64) -> LibraryModel {
        LibraryModel {
            books: self.books.update(book_id - 1, checked_out_book(self.book(book_id), due)),
            members: self.members.update(
                member_id - 1,
                member_with_borrow(self.member(member_id), book_id),
            ),
            ..self
        }
    }

    /// Return is allowed: both records exist and the member's borrowed list
    /// holds the book.
    pub open spec fn can_return(self, book_id: u32, member_id: u32) -> bool {
        self.has_book(book_id) && self.has_member(member_id) && self.member(
            member_id,
        ).borrowed.contains(book_id)
    }

    /// The catalog after a successful return: the book becomes available
    /// with no due timestamp, and its id leaves the member's borrowed list.
    pub open spec fn after_return(self, book_id: u32, member_id: u32) -> LibraryModel {
        LibraryModel {
            books: self.books.update(book_id - 1, returned_book(self.book(book_id))),
            members: self.members.update(
                member_id - 1,
                member_without_borrow(self.member(member_id), book_id),
            ),
            ..self
        }
    }
}

/// The catalog: all books and members, and the two id counters. Construct
/// one explicitly with [`Library::new`]; there is no implicit instance.
pub struct Library {
    pub books: Vec<Book>,
    pub members: Vec<Member>,
    pub next_book_id: u32,
    pub next_member_id: u32,
}

impl View for Library {
    type V = LibraryModel;

    open spec fn view(&self) -> LibraryModel {
        LibraryModel {
            books: self.books@,
            members: self.members@.map_values(|m: Member| m@),
            next_book_id: self.next_book_id,
            next_member_id: self.next_member_id,
        }
    }
}

impl Library {
    /// The catalog invariant, on the executable representation.
    pub open spec fn wf(&self) -> bool {
        self@.wf()
    }

    /// Creates an empty catalog; the first book and the first member will
    /// both get id 1.
    pub fn new() -> (lib: Library)
        ensures
            lib.wf(),
            lib@.books == Seq::<Book>::empty(),
            lib@.members == Seq::<MemberModel>::empty(),
            lib@.next_book_id == 1,
            lib@.next_member_id == 1,
    {
        let lib = Library {
            books: Vec::new(),
            members: Vec::new(),
            next_book_id: 1,
            next_member_id: 1,
        };
        proof {
            assert(lib@.members =~= Seq::<MemberModel>::empty());
        }
        lib
    }

    /// Adds a book with the given title, author and isbn. Always succeeds:
    /// the book gets the next sequential id (returned), is available, and
    /// has no due timestamp. The member store and counter are untouched.
    pub fn add_book(&mut self, title: String, author: String, isbn: String) -> (book_id: u32)
        requires
            old(self).wf(),
            old(self)@.next_book_id < u32::MAX,
        ensures
            final(self).wf(),
            book_id == old(self)@.next_book_id,
            final(self)@ =~= old(self)@.after_add_book(title, author, isbn),
            final(self)@.next_book_id == book_id + 1,
    {
        let ghost gt = title;
        let ghost ga = author;
        let ghost gi = isbn;
        let id = self.next_book_id;
        let book = Book { id, title, author, isbn, available: true, due_date: None };
        self.books.push(book);
        self.next_book_id = id + 1;
        proof {
            crate::laws::lemma_add_book_keeps_wf(old(self)@, gt, ga, gi);
        }
        id
    }

    /// Adds a member with the given name. Always succeeds: the member gets
    /// the next sequential id (returned) and an empty borrowed list. The
    /// book store and counter are untouched.
    pub fn add_member(&mut self, name: String) -> (member_id: u32)
        requires
            old(self).wf(),
            old(self)@.next_member_id < u32::MAX,
        ensures
            final(self).wf(),
            member_id == old(self)@.next_member_id,
            final(self)@ =~= old(self)@.after_add_member(name),
            final(self)@.next_member_id == member_id + 1,
    {
        let ghost gn = name;
        let id = self.next_member_id;
        let member = Member::new(id, name);
        self.members.push(member);
        self.next_member_id = id + 1;
        proof {
            assert(self.members@.map_values(|m: Member| m@) =~= old(
                self,
            ).members@.map_values(|m: Member| m@).push(
                MemberModel { id, name: gn, borrowed: Seq::empty() },
            ));
            crate::laws::lemma_add_member_keeps_wf(old(self)@, gn);
        }
        id
    }

    /// Checks a book out to a member, with `now` (whole seconds since the
    /// Unix epoch) as the checkout time: the due timestamp becomes
    /// `now + LOAN_PERIOD_SECONDS`. Fails with `NotFound(Book)` if the book
    /// id is unknown, then `NotFound(Member)` if the member id is unknown,
    /// then `Unavailable` if the book is already checked out; a failed call
    /// leaves the catalog untouched.
    pub fn check_out_book_at(&mut self, book_id: u32, member_id: u32, now: u64) -> (r: Result<
        (),
        LibraryError,
    >)
        requires
            old(self).wf(),
            now + LOAN_PERIOD_SECONDS <= u64::MAX,
        ensures
            final(self).wf(),
            r is Ok <==> old(self)@.can_check_out(book_id, member_id),
            old(self)@.can_check_out(book_id, member_id) ==> final(self)@ =~= old(
                self,
            )@.after_check_out(book_id, member_id, (now + LOAN_PERIOD_SECONDS) as u64),
            !old(self)@.has_book(book_id) ==> r == Err::<(), LibraryError>(
                LibraryError::NotFound(EntityKind::Book),
            ),
            old(self)@.has_book(book_id) && !old(self)@.has_member(member_id) ==> r == Err::<
                (),
                LibraryError,
            >(LibraryError::NotFound(EntityKind::Member)),
            old(self)@.has_book(book_id) && old(self)@.has_member(member_id) && !old(self)@.book(
                book_id,
            ).available ==> r == Err::<(), LibraryError>(LibraryError::Unavailable),
            !old(self)@.can_check_out(book_id, member_id) ==> final(self)@ == old(self)@,
    {
        if book_id < 1 || (book_id as usize) > self.books.len() {
            return Err(LibraryError::NotFound(EntityKind::Book));
        }
        if member_id < 1 || (member_id as usize) > self.members.len() {
            return Err(LibraryError::NotFound(EntityKind::Member));
        }
        let b_idx = (book_id - 1) as usize;
        if !self.books[b_idx].available {
            return Err(LibraryError::Unavailable);
        }
        let due = now + LOAN_PERIOD_SECONDS;
        let book = self.books.remove(b_idx);
        let updated = Book { available: false, due_date: Some(due), ..book };
        self.books.insert(b_idx, updated);
        let m_idx = (member_id - 1) as usize;
        let mut member = self.members.remove(m_idx);
        member.borrowed_books.push(book_id);
        let ghost gm = member;
        self.members.insert(m_idx, member);
        proof {
            assert(self.books@ =~= old(self).books@.update(
                b_idx as int,
                checked_out_book(old(self)@.book(book_id), due),
            ));
            assert(self.members@.map_values(|m: Member| m@) =~= old(self).members@.map_values(
                |m: Member| m@,
            ).update(m_idx as int, gm@));
            assert(gm@ =~= member_with_borrow(old(self)@.member(member_id), book_id));
            assert(self@ =~= old(self)@.after_check_out(book_id, member_id, due));
            crate::laws::lemma_check_out_effects(old(self)@, book_id, member_id, due);
        }
        Ok(())
    }

    /// Checks a book out to a member at the current clock time; the due
    /// timestamp becomes the checkout time plus `LOAN_PERIOD_SECONDS`. The
    /// failure cases, their order, and the untouched-on-failure guarantee
    /// are those of [`Library::check_out_book_at`]; the due timestamp
    /// depends on the clock, so here it is only promised to exist.
    pub fn check_out_book(&mut self, book_id: u32, member_id: u32) -> (r: Result<
        (),
        LibraryError,
    >)
        requires
            old(self).wf(),
        ensures
            final(self).wf(),
            r is Ok <==> old(self)@.can_check_out(book_id, member_id),
            old(self)@.can_check_out(book_id, member_id) ==> exists|due: u64|
                final(self)@ =~= old(self)@.after_check_out(book_id, member_id, due),
            !old(self)@.has_book(book_id) ==> r == Err::<(), LibraryError>(
                LibraryError::NotFound(EntityKind::Book),
            ),
            old(self)@.has_book(book_id) && !old(self)@.has_member(member_id) ==> r == Err::<
                (),
                LibraryError,
            >(LibraryError::NotFound(EntityKind::Member)),
            old(self)@.has_book(book_id) && old(self)@.has_member(member_id) && !old(self)@.book(
                book_id,
            ).available ==> r == Err::<(), LibraryError>(LibraryError::Unavailable),
            !old(self)@.can_check_out(book_id, member_id) ==> final(self)@ == old(self)@,
    {
        let now = now_secs();
        let now_clamped = if now <= u64::MAX - LOAN_PERIOD_SECONDS {
            now
        } else {
            u64::MAX - LOAN_PERIOD_SECONDS
        };
        let r = self.check_out_book_at(book_id, member_id, now_clamped);
        proof {
            if old(self)@.can_check_out(book_id, member_id) {
                assert(self@ =~= old(self)@.after_check_out(
                    book_id,
                    member_id,
                    (now_clamped + LOAN_PERIOD_SECONDS) as u64,
                ));
            }
        }
        r
    }

    /// Returns a book a member had checked out. Fails with `NotFound(Book)`
    /// if the book id is unknown, then `NotFound(Member)` if the member id
    /// is unknown, then `NotBorrowedByMember` if the member's borrowed list
    /// does not hold the book; a failed call leaves the catalog untouched.
    pub fn return_book(&mut self, book_id: u32, member_id: u32) -> (r: Result<(), LibraryError>)
        requires
            old(self).wf(),
        ensures
            final(self).wf(),
            r is Ok <==> old(self)@.can_return(book_id, member_id),
            old(self)@.can_return(book_id, member_id) ==> final(self)@ =~= old(self)@.after_return(
                book_id,
                member_id,
            ),
            !old(self)@.has_book(book_id) ==> r == Err::<(), LibraryError>(
                LibraryError::NotFound(EntityKind::Book),
            ),
            old(self)@.has_book(book_id) && !old(self)@.has_member(member_id) ==> r == Err::<
                (),
                LibraryError,
            >(LibraryError::NotFound(EntityKind::Member)),
            old(self)@.has_book(book_id) && old(self)@.has_member(member_id) && !old(self)@.member(
                member_id,
            ).borrowed.contains(book_id) ==> r == Err::<(), LibraryError>(
                LibraryError::NotBorrowedByMember,
            ),
            !old(self)@.can_return(book_id, member_id) ==> final(self)@ == old(self)@,
    {
        if book_id < 1 || (book_id as usize) > self.books.len() {
            return Err(LibraryError::NotFound(EntityKind::Book));
        }
        if member_id < 1 || (member_id as usize) > self.members.len() {
            return Err(LibraryError::NotFound(EntityKind::Member));
        }
        let m_idx = (member_id - 1) as usize;
        let found = find_first(&self.members[m_idx].borrowed_books, book_id);
        match found {
            None => Err(LibraryError::NotBorrowedByMember),
            Some(k0) => {
                let mut member = self.members.remove(m_idx);
                let _removed = member.borrowed_books.remove(k0);
                let ghost gm = member;
                self.members.insert(m_idx, member);
                let b_idx = (book_id - 1) as usize;
                let book = self.books.remove(b_idx);
                let updated = Book { available: true, due_date: None, ..book };
                self.books.insert(b_idx, updated);
                proof {
                    let borrowed = old(self)@.member(member_id).borrowed;
                    borrowed.index_of_first_ensures(book_id);
                    assert(borrowed.index_of_first(book_id) == Some(k0 as int));
                    assert(gm@.borrowed == borrowed.remove_value(book_id));
                    assert(self.books@ =~= old(self).books@.update(
                        b_idx as int,
                        returned_book(old(self)@.book(book_id)),
                    ));
                    assert(self.members@.map_values(|m: Member| m@) =~= old(
                        self,
                    ).members@.map_values(|m: Member| m@).update(m_idx as int, gm@));
                    assert(gm@ =~= member_without_borrow(old(self)@.member(member_id), book_id));
                    assert(self@ =~= old(self)@.after_return(book_id, member_id));
                    crate::laws::lemma_return_effects(old(self)@, book_id, member_id);
                }
                Ok(())
            },
        }
    }

    /// Returns the books the member currently has out, in the order of the
    /// member's borrowed list (an id that resolved to no book would be
    /// skipped silently, though under the catalog invariant every id
    /// resolves). Fails with `NotFound(Member)` if the member id is unknown.
    pub fn get_member_books(&self, member_id: u32) -> (r: Result<Vec<&Book>, LibraryError>)
        requires
            self.wf(),
        ensures
            match r {
                Ok(books) => self@.has_member(member_id) && books@.len() == self@.member(
                    member_id,
                ).borrowed.len() && forall|i: int|
                    0 <= i < books@.len() ==> *books@[i] == self@.book(
                        self@.member(member_id).borrowed[i],
                    ),
                Err(e) => !self@.has_member(member_id) && e == LibraryError::NotFound(
                    EntityKind::Member,
                ),
            },
    {
        if member_id < 1 || (member_id as usize) > self.members.len() {
            return Err(LibraryError::NotFound(EntityKind::Member));
        }
        let m_idx = (member_id - 1) as usize;
        let ids = &self.members[m_idx].borrowed_books;
        let mut result: Vec<&Book> = Vec::new();
        let mut k: usize = 0;
        while k < ids.len()
            invariant
                self.wf(),
                1 <= member_id,
                member_id as int <= self.members@.len(),
                m_idx == member_id - 1,
                ids@ == self@.member(member_id).borrowed,
                k <= ids@.len(),
                result@.len() == k,
                forall|i: int|
                    0 <= i < k ==> *result@[i] == self@.book(self@.member(member_id).borrowed[i]),
            decreases ids@.len() - k,
        {
            let id = ids[k];
            proof {
                assert(self@.valid_entry(member_id - 1, k as int));
                assert(self@.entry(member_id - 1, k as int) == id);
                assert(self@.has_book(id));
            }
            if id >= 1 && (id as usize) <= self.books.len() {
                result.push(&self.books[(id - 1) as usize]);
            }
            k = k + 1;
        }
        Ok(result)
    }

    /// Returns references to the books that match the query, in store order:
    /// a book matches when the query occurs case-insensitively in its title
    /// or author, or verbatim in its isbn (so an empty query matches every
    /// book).
    pub fn search_books(&self, query: &str) -> (r: Vec<&Book>)
        ensures
            deref_books(r@) =~= search_results(self.books@, query@),
    {
        let mut result: Vec<&Book> = Vec::new();
        let mut i: usize = 0;
        while i < self.books.len()
            invariant
                i <= self.books@.len(),
                deref_books(result@) =~= search_results(self.books@.take(i as int), query@),
            decreases self.books@.len() - i,
        {
            let b = &self.books[i];
            let ghost prev = result@;
            if crate::text::book_matches_exec(b, query) {
                result.push(b);
                proof {
                    assert(deref_books(result@) =~= deref_books(prev).push(*b));
                }
            }
            proof {
                broadcast use vstd::seq_lib::group_seq_properties;

                self.books@.lemma_take_succ_push(i as int);
                self.books@.take(i as int).lemma_filter_push(
                    self.books@[i as int],
                    |bk: Book| book_matches(bk, query@),
                );
                assert(deref_books(result@) =~= search_results(
                    self.books@.take(i as int + 1),
                    query@,
                ));
            }
            i = i + 1;
        }
        proof {
            assert(self.books@.take(self.books@.len() as int) =~= self.books@);
        }
        result
    }

    /// Returns the book with the given id, if the id is known.
    pub fn get_book(&self, book_id: u32) -> (r: Option<&Book>)
        ensures
            match r {
                Some(b) => self@.has_book(book_id) && *b == self@.book(book_id),
                None => !self@.has_book(book_id),
            },
    {
        if book_id >= 1 && (book_id as usize) <= self.books.len() {
            Some(&self.books[(book_id - 1) as usize])
        } else {
            None
        }
    }

    /// Returns the member with the given id, if the id is known.
    pub fn get_member(&self, member_id: u32) -> (r: Option<&Member>)
        ensures
            match r {
                Some(m) => self@.has_member(member_id) && m@ == self@.member(member_id),
                None => !self@.has_member(member_id),
            },
    {
        if member_id >= 1 && (member_id as usize) <= self.members.len() {
            Some(&self.members[(member_id - 1) as usize])
        } else {
            None
        }
    }
}

/// Returns the index of the first occurrence of `target` in `ids`, if any.
fn find_first(ids: &Vec<u32>, target: u32) -> (r: Option<usize>)
    ensures
        match r {
            Some(k) => k < ids@.len() && ids@[k as int] == target && forall|j: int|
                0 <= j < k ==> ids@[j] != target,
            None => !ids@.contains(target),
        },
{
    let mut i: usize = 0;
    while i < ids.len()
        invariant
            i <= ids@.len(),
            forall|j: int| 0 <= j < i ==> ids@[j] != target,
        decreases ids@.len() - i,
    {
        if ids[i] == target {
            return Some(i);
        }
        i = i + 1;
    }
    None
}

/// Relies on `std::time::SystemTime::now` and `duration_since(UNIX_EPOCH)`:
/// the current clock time as whole seconds since the Unix epoch (0 if the
/// clock reads earlier than the epoch). Nothing is assumed of the value.
#[verifier::external_body]
fn now_secs() -> u64 {
    match std::time::SystemTime::now().duration_since(std::time::UNIX_EPOCH) {
        Ok(elapsed) => elapsed.as_secs(),
        Err(_) => 0,
    }
}

} // verus!

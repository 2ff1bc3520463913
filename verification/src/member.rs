//! A member record and its mathematical model.

use vstd::prelude::*;

verus! {

/// One member of the library. `id` is assigned sequentially by the catalog,
/// starting at 1 (independently of book ids). `borrowed_books` holds the ids
/// of the books the member currently has out, in checkout order.
#[derive(Debug)]
pub struct Member {
    pub id: u32,
    pub name: String,
    pub borrowed_books: Vec<u32>,
}

/// The model of a member: the same record with the borrowed list as a
/// mathematical sequence.
#[verifier::ext_equal]
pub ghost struct MemberModel {
    pub id: u32,
    pub name: String,
    pub borrowed: Seq<u32>,
}

impl View for Member {
    type V = MemberModel;

    open spec fn view(&self) -> MemberModel {
        MemberModel { id: self.id, name: self.name, borrowed: self.borrowed_books@ }
    }
}

impl Member {
    /// Creates a member with the given id and name and no borrowed books.
    pub fn new(id: u32, name: String) -> (m: Member)
        ensures
            m@ == (MemberModel { id, name, borrowed: Seq::<u32>::empty() }),
    {
        Member { id, name, borrowed_books: Vec::new() }
    }
}

/// `m` with `book_id` appended to its borrowed list.
pub open spec fn member_with_borrow(m: MemberModel, book_id: u32) -> MemberModel {
    MemberModel { borrowed: m.borrowed.push(book_id), ..m }
}

/// `m` with the first occurrence of `book_id` removed from its borrowed
/// list (under the catalog invariant there is at most one occurrence).
pub open spec fn member_without_borrow(m: MemberModel, book_id: u32) -> MemberModel {
    MemberModel { borrowed: m.borrowed.remove_value(book_id), ..m }
}

} // verus!

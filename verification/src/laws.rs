//! The catalog's laws, proved once over the model: the add operations hand
//! out strictly increasing ids and preserve the invariant, checkout and
//! return have exactly the effects the operations promise, and a checkout
//! followed by a return restores the catalog.

use vstd::prelude::*;
use crate::catalog::LibraryModel;

verus! {

/// While a book is available, no member's borrowed list holds it.
proof fn lemma_available_book_unborrowed(m: LibraryModel, book_id: u32)
    requires
        m.wf(),
        m.has_book(book_id),
        m.book(book_id).available,
    ensures
        forall|j: int, k: int| m.valid_entry(j, k) ==> #[trigger] m.entry(j, k) != book_id,
{
    assert forall|j: int, k: int| m.valid_entry(j, k) implies #[trigger] m.entry(j, k)
        != book_id by {
        assert(!m.book(m.entry(j, k)).available);
    }
}

/// A successful checkout, with any due timestamp, preserves the catalog
/// invariant and has exactly the promised effects: the book becomes
/// unavailable with that due timestamp, the book's id is appended to the
/// member's borrowed list (which did not hold it before, so it holds it
/// exactly once afterwards), and everything else is untouched.
pub proof fn lemma_check_out_effects(m: LibraryModel, book_id: u32, member_id: u32, due: u64)
    requires
        m.wf(),
        m.can_check_out(book_id, member_id),
    ensures
        ({
            let m2 = m.after_check_out(book_id, member_id, due);
            &&& m2.wf()
            &&& !m2.book(book_id).available
            &&& m2.book(book_id).due_date == Some(due)
            &&& !m.member(member_id).borrowed.contains(book_id)
            &&& m2.member(member_id).borrowed == m.member(member_id).borrowed.push(book_id)
            &&& m2.member(member_id).borrowed.contains(book_id)
            &&& forall|k1: int, k2: int|
                0 <= k1 < m2.member(member_id).borrowed.len() && 0 <= k2 < m2.member(
                    member_id,
                ).borrowed.len() && #[trigger] m2.member(member_id).borrowed[k1] == book_id
                    && #[trigger] m2.member(member_id).borrowed[k2] == book_id ==> k1 == k2
            &&& m2.next_book_id == m.next_book_id
            &&& m2.next_member_id == m.next_member_id
        }),
{
    lemma_available_book_unborrowed(m, book_id);
    let m2 = m.after_check_out(book_id, member_id, due);
    let mi = member_id - 1;
    let old_len = m.member(member_id).borrowed.len() as int;
    // The member's borrowed list did not hold the book.
    assert forall|k: int| 0 <= k < old_len implies m.member(member_id).borrowed[k]
        != book_id by {
        assert(m.entry(mi, k) != book_id);
    }
    assert(!m.member(member_id).borrowed.contains(book_id));
    // How the entries of the new catalog relate to the old ones.
    assert forall|j: int, k: int| m2.valid_entry(j, k) implies (j == mi && k == old_len && m2.entry(
        j,
        k,
    ) == book_id) || (m.valid_entry(j, k) && #[trigger] m2.entry(j, k) == m.entry(j, k)
        && m2.entry(j, k) != book_id) by {
        if j == mi && k == old_len {
            assert(m2.entry(j, k) == book_id);
        } else {
            assert(m.valid_entry(j, k));
            assert(m2.entry(j, k) == m.entry(j, k));
            assert(m.entry(j, k) != book_id);
        }
    }
    assert forall|j: int, k: int| m2.valid_entry(j, k) implies m2.has_book(
        #[trigger] m2.entry(j, k),
    ) && !m2.book(m2.entry(j, k)).available by {
        if j == mi && k == old_len {
            assert(m2.entry(j, k) == book_id);
        } else {
            assert(!m.book(m.entry(j, k)).available);
            assert(m2.entry(j, k) != book_id);
        }
    }
    assert(m2.entries_unique()) by {
        assert forall|j1: int, k1: int, j2: int, k2: int|
            m2.valid_entry(j1, k1) && m2.valid_entry(j2, k2) && #[trigger] m2.entry(j1, k1)
                == #[trigger] m2.entry(j2, k2) implies j1 == j2 && k1 == k2 by {
            if j1 == mi && k1 == old_len {
                assert(m2.entry(j2, k2) == book_id);
            } else if j2 == mi && k2 == old_len {
                assert(m2.entry(j1, k1) == book_id);
            } else {
                assert(m.entry(j1, k1) == m2.entry(j1, k1));
                assert(m.entry(j2, k2) == m2.entry(j2, k2));
            }
        }
    }
    assert forall|i: int|
        0 <= i < m2.books.len() && !(#[trigger] m2.books[i]).available implies exists|
        j: int,
        k: int,
    | m2.valid_entry(j, k) && m2.entry(j, k) == i + 1 by {
        if i == book_id - 1 {
            assert(m2.valid_entry(mi, old_len) && m2.entry(mi, old_len) == i + 1);
        } else {
            let (j, k) = choose|j: int, k: int| m.valid_entry(j, k) && m.entry(j, k) == i + 1;
            assert(m2.valid_entry(j, k));
            assert(m2.entry(j, k) == m.entry(j, k));
        }
    }
    // The book id appears exactly once afterwards.
    assert(m2.member(member_id).borrowed[old_len] == book_id);
    assert(m2.member(member_id).borrowed.contains(book_id));
    assert forall|k1: int, k2: int|
        0 <= k1 < m2.member(member_id).borrowed.len() && 0 <= k2 < m2.member(
            member_id,
        ).borrowed.len() && #[trigger] m2.member(member_id).borrowed[k1] == book_id
            && #[trigger] m2.member(member_id).borrowed[k2] == book_id implies k1 == k2 by {
        assert(k1 < old_len ==> m.member(member_id).borrowed[k1] == book_id);
        assert(k2 < old_len ==> m.member(member_id).borrowed[k2] == book_id);
    }
}

/// A successful return preserves the catalog invariant and has exactly the
/// promised effects: the book becomes available with no due timestamp, its
/// id leaves the member's borrowed list entirely, and everything else is
/// untouched.
pub proof fn lemma_return_effects(m: LibraryModel, book_id: u32, member_id: u32)
    requires
        m.wf(),
        m.can_return(book_id, member_id),
    ensures
        ({
            let m2 = m.after_return(book_id, member_id);
            &&& m2.wf()
            &&& m2.book(book_id).available
            &&& m2.book(book_id).due_date is None
            &&& !m2.member(member_id).borrowed.contains(book_id)
            &&& m2.member(member_id).borrowed.len() == m.member(member_id).borrowed.len() - 1
            &&& m2.next_book_id == m.next_book_id
            &&& m2.next_member_id == m.next_member_id
        }),
{
    let m2 = m.after_return(book_id, member_id);
    let mi = member_id - 1;
    let borrowed = m.member(member_id).borrowed;
    borrowed.index_of_first_ensures(book_id);
    let k0 = borrowed.index_of_first(book_id)->Some_0;
    assert(borrowed[k0] == book_id);
    // The book stands in the member's list only at k0, and in no other list.
    assert forall|k: int| 0 <= k < borrowed.len() && borrowed[k] == book_id implies k == k0 by {
        assert(m.entry(mi, k) == m.entry(mi, k0));
    }
    assert forall|j: int, k: int|
        m.valid_entry(j, k) && (j, k) != (mi, k0) implies #[trigger] m.entry(j, k) != book_id by {
        if m.entry(j, k) == book_id {
            assert(m.entry(j, k) == m.entry(mi, k0));
        }
    }
    let new_borrowed = m2.member(member_id).borrowed;
    assert(new_borrowed == borrowed.remove(k0));
    // The id is gone from the member's list.
    assert forall|l: int| 0 <= l < new_borrowed.len() implies new_borrowed[l] != book_id by {
        if l < k0 {
            assert(new_borrowed[l] == m.entry(mi, l));
        } else {
            assert(new_borrowed[l] == m.entry(mi, l + 1));
        }
    }
    assert(!new_borrowed.contains(book_id));
    // Each entry of the new catalog is an old entry other than (mi, k0).
    assert forall|j: int, k: int| m2.valid_entry(j, k) implies m2.has_book(
        #[trigger] m2.entry(j, k),
    ) && !m2.book(m2.entry(j, k)).available by {
        if j == mi {
            if k < k0 {
                assert(m2.entry(j, k) == m.entry(mi, k));
                assert(m.entry(mi, k) != book_id);
            } else {
                assert(m2.entry(j, k) == m.entry(mi, k + 1));
                assert(m.entry(mi, k + 1) != book_id);
            }
        } else {
            assert(m2.entry(j, k) == m.entry(j, k));
            assert(m.entry(j, k) != book_id);
        }
    }
    assert(m2.entries_unique()) by {
        assert forall|j1: int, k1: int, j2: int, k2: int|
            m2.valid_entry(j1, k1) && m2.valid_entry(j2, k2) && #[trigger] m2.entry(j1, k1)
                == #[trigger] m2.entry(j2, k2) implies j1 == j2 && k1 == k2 by {
            let l1 = if j1 == mi && k1 >= k0 { k1 + 1 } else { k1 };
            let l2 = if j2 == mi && k2 >= k0 { k2 + 1 } else { k2 };
            assert(m2.entry(j1, k1) == m.entry(j1, l1));
            assert(m2.entry(j2, k2) == m.entry(j2, l2));
            assert(m.valid_entry(j1, l1) && m.valid_entry(j2, l2));
        }
    }
    assert forall|i: int|
        0 <= i < m2.books.len() && !(#[trigger] m2.books[i]).available implies exists|
        j: int,
        k: int,
    | m2.valid_entry(j, k) && m2.entry(j, k) == i + 1 by {
        assert(i != book_id - 1);
        assert(!m.books[i].available);
        let (j, k) = choose|j: int, k: int| m.valid_entry(j, k) && m.entry(j, k) == i + 1;
        assert(m.entry(j, k) != book_id);
        if j == mi {
            if k < k0 {
                assert(m2.valid_entry(mi, k) && m2.entry(mi, k) == i + 1);
            } else {
                assert(k > k0);
                assert(m2.valid_entry(mi, k - 1));
                assert(m2.entry(mi, k - 1) == m.entry(mi, k));
            }
        } else {
            assert(m2.valid_entry(j, k) && m2.entry(j, k) == i + 1);
        }
    }
}

/// Checking a book out and then returning it restores the catalog exactly:
/// the checkout-return cycle is a no-op, whatever due timestamp the checkout
/// used.
pub proof fn lemma_check_out_return_round_trip(
    m: LibraryModel,
    book_id: u32,
    member_id: u32,
    due: u64,
)
    requires
        m.wf(),
        m.can_check_out(book_id, member_id),
    ensures
        ({
            let m2 = m.after_check_out(book_id, member_id, due);
            &&& m2.can_return(book_id, member_id)
            &&& m2.after_return(book_id, member_id) =~~= m
        }),
{
    lemma_check_out_effects(m, book_id, member_id, due);
    let m2 = m.after_check_out(book_id, member_id, due);
    let m3 = m2.after_return(book_id, member_id);
    let mi = member_id - 1;
    let borrowed = m.member(member_id).borrowed;
    let pushed = m2.member(member_id).borrowed;
    // The only occurrence of the book id in the pushed list is the last one,
    // so removing the value removes exactly the pushed element.
    pushed.index_of_first_ensures(book_id);
    let k0 = pushed.index_of_first(book_id)->Some_0;
    assert(k0 == borrowed.len()) by {
        if k0 < borrowed.len() {
            assert(borrowed[k0] == book_id);
            assert(borrowed.contains(book_id));
        }
    }
    assert(m3.member(member_id).borrowed =~= borrowed);
    // The book record is restored exactly: it was available, so by the
    // invariant it had no due timestamp.
    assert(m.book(book_id).due_date is None);
    assert(m3.books =~= m.books);
    assert(m3.members =~~= m.members);
    assert(m3 =~~= m);
}

/// Adding a book hands out the current book counter as id, moves that
/// counter strictly up, leaves the members and their counter untouched, and
/// preserves the catalog invariant.
pub proof fn lemma_add_book_keeps_wf(m: LibraryModel, title: String, author: String, isbn: String)
    requires
        m.wf(),
        m.next_book_id < u32::MAX,
    ensures
        m.after_add_book(title, author, isbn).wf(),
        m.after_add_book(title, author, isbn).next_book_id > m.next_book_id,
        m.after_add_book(title, author, isbn).next_member_id == m.next_member_id,
        m.after_add_book(title, author, isbn).members == m.members,
        m.after_add_book(title, author, isbn).book(m.next_book_id).id == m.next_book_id,
{
    let m2 = m.after_add_book(title, author, isbn);
    assert forall|j: int, k: int| m2.valid_entry(j, k) implies m2.has_book(
        #[trigger] m2.entry(j, k),
    ) && !m2.book(m2.entry(j, k)).available by {
        assert(m.valid_entry(j, k));
        assert(m.entry(j, k) == m2.entry(j, k));
        assert(m.has_book(m.entry(j, k)) && !m.book(m.entry(j, k)).available);
    }
    assert(m2.entries_unique()) by {
        assert forall|j1: int, k1: int, j2: int, k2: int|
            m2.valid_entry(j1, k1) && m2.valid_entry(j2, k2) && #[trigger] m2.entry(j1, k1)
                == #[trigger] m2.entry(j2, k2) implies j1 == j2 && k1 == k2 by {
            assert(m.entry(j1, k1) == m2.entry(j1, k1));
            assert(m.entry(j2, k2) == m2.entry(j2, k2));
        }
    }
    assert forall|i: int|
        0 <= i < m2.books.len() && !(#[trigger] m2.books[i]).available implies exists|
        j: int,
        k: int,
    | m2.valid_entry(j, k) && m2.entry(j, k) == i + 1 by {
        assert(i < m.books.len() && !m.books[i].available);
        let (j, k) = choose|j: int, k: int| m.valid_entry(j, k) && m.entry(j, k) == i + 1;
        assert(m2.valid_entry(j, k) && m2.entry(j, k) == i + 1);
    }
}

/// Adding a member hands out the current member counter as id, moves that
/// counter strictly up, leaves the books and their counter untouched, and
/// preserves the catalog invariant.
pub proof fn lemma_add_member_keeps_wf(m: LibraryModel, name: String)
    requires
        m.wf(),
        m.next_member_id < u32::MAX,
    ensures
        m.after_add_member(name).wf(),
        m.after_add_member(name).next_member_id > m.next_member_id,
        m.after_add_member(name).next_book_id == m.next_book_id,
        m.after_add_member(name).books == m.books,
        m.after_add_member(name).member(m.next_member_id).id == m.next_member_id,
        m.after_add_member(name).member(m.next_member_id).borrowed == Seq::<u32>::empty(),
{
    let m2 = m.after_add_member(name);
    let new_idx = m.members.len() as int;
    assert forall|j: int, k: int| m2.valid_entry(j, k) implies m2.has_book(
        #[trigger] m2.entry(j, k),
    ) && !m2.book(m2.entry(j, k)).available by {
        assert(j != new_idx);
        assert(m.valid_entry(j, k));
        assert(m.entry(j, k) == m2.entry(j, k));
        assert(m.has_book(m.entry(j, k)) && !m.book(m.entry(j, k)).available);
    }
    assert(m2.entries_unique()) by {
        assert forall|j1: int, k1: int, j2: int, k2: int|
            m2.valid_entry(j1, k1) && m2.valid_entry(j2, k2) && #[trigger] m2.entry(j1, k1)
                == #[trigger] m2.entry(j2, k2) implies j1 == j2 && k1 == k2 by {
            assert(j1 != new_idx && j2 != new_idx);
            assert(m.entry(j1, k1) == m2.entry(j1, k1));
            assert(m.entry(j2, k2) == m2.entry(j2, k2));
        }
    }
    assert forall|i: int|
        0 <= i < m2.books.len() && !(#[trigger] m2.books[i]).available implies exists|
        j: int,
        k: int,
    | m2.valid_entry(j, k) && m2.entry(j, k) == i + 1 by {
        let (j, k) = choose|j: int, k: int| m.valid_entry(j, k) && m.entry(j, k) == i + 1;
        assert(m2.valid_entry(j, k) && m2.entry(j, k) == i + 1);
    }
}

} // verus!

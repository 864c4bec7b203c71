use vstd::prelude::*;

use crate::book::Book;

verus! {

/// A named, growable group of books. The id is assigned once at creation and
/// never changes; the name may be renamed; the book list grows by append only.
#[derive(Debug)]
pub struct Collection {
    id: i32,
    name: String,
    books: Vec<Book>,
}

impl Collection {
    /// The permanent integer id of this collection.
    pub closed spec fn spec_id(&self) -> i32 {
        self.id
    }

    /// The current name of this collection.
    pub closed spec fn spec_name(&self) -> Seq<char> {
        self.name@
    }

    /// The ISBNs of the books in this collection, in insertion order.
    pub closed spec fn books_view(&self) -> Seq<Seq<char>> {
        self.books@.map_values(|b: Book| b@)
    }

    pub fn new(id: i32, name: String) -> (c: Collection)
        ensures
            c.spec_id() == id,
            c.spec_name() == name@,
            c.books_view() == Seq::<Seq<char>>::empty(),
    {
        let c = Collection { id, name, books: vec![] };
        proof {
            assert(c.books_view() =~= Seq::<Seq<char>>::empty());
        }
        c
    }

    pub fn set_name(&mut self, new_name: String)
        ensures
            final(self).spec_name() == new_name@,
            final(self).spec_id() == old(self).spec_id(),
            final(self).books_view() == old(self).books_view(),
    {
        self.name = new_name
    }

    pub fn collection_size(&self) -> (n: usize)
        ensures
            n == self.books_view().len(),
    {
        self.books.len()
    }

    pub fn add_book(&mut self, new_book: Book)
        ensures
            final(self).books_view() == old(self).books_view().push(new_book@),
            final(self).spec_id() == old(self).spec_id(),
            final(self).spec_name() == old(self).spec_name(),
    {
        let ghost prev = self.books_view();
        self.books.push(new_book);
        proof {
            assert(self.books_view() =~= prev.push(new_book@));
        }
    }

    pub fn id(&self) -> (r: i32)
        ensures
            r == self.spec_id(),
    {
        self.id
    }

    pub fn name(&self) -> (r: &str)
        ensures
            r@ == self.spec_name(),
    {
        self.name.as_str()
    }

    /// Exact-match comparison of this collection's name against a query name.
    pub fn name_matches(&self, name: &String) -> (r: bool)
        ensures
            r == (self.spec_name() == name@),
    {
        self.name == *name
    }
}

} // verus!

use vstd::prelude::*;

use crate::book::Book;
use crate::collection::Collection;
use crate::error::Error;

verus! {

pub const FIRST_COLLECTION_ID: i32 = 1;

/// The shared in-memory registry of books and collections: the aggregate root.
/// `books` is the complete flat list of every registered book; a book that was
/// registered against a collection also appears in that collection's own list.
/// `next_id` is a monotonic counter of collection ids; ids are never reused
/// (there is no removal operation).
#[derive(Debug)]
pub struct Library {
    collections: Vec<Collection>,
    books: Vec<Book>,
    next_id: i32,
}

impl Library {
    /// The collections, in insertion order.
    pub closed spec fn spec_collections(&self) -> Seq<Collection> {
        self.collections@
    }

    /// The ISBNs of the flat book list, in registration order.
    pub closed spec fn books_view(&self) -> Seq<Seq<char>> {
        self.books@.map_values(|b: Book| b@)
    }

    /// The id the next created collection will receive.
    pub closed spec fn spec_next_id(&self) -> i32 {
        self.next_id
    }

    /// Well-formedness: ids are at least `FIRST_COLLECTION_ID` and below the
    /// counter, no two collections share an id, and every book held by a
    /// collection also appears in the flat list.
    pub open spec fn wf(&self) -> bool {
        &&& FIRST_COLLECTION_ID <= self.spec_next_id()
        &&& forall|i: int|
            0 <= i < self.spec_collections().len() ==> FIRST_COLLECTION_ID <= (
            #[trigger] self.spec_collections()[i].spec_id()) < self.spec_next_id()
        &&& forall|i: int, j: int|
            0 <= i < j < self.spec_collections().len() ==> (
            #[trigger] self.spec_collections()[i].spec_id()) != (
            #[trigger] self.spec_collections()[j].spec_id())
        &&& forall|i: int, k: int|
            0 <= i < self.spec_collections().len() && 0 <= k
                < self.spec_collections()[i].books_view().len() ==> self.books_view().contains(
                #[trigger] self.spec_collections()[i].books_view()[k],
            )
    }

    /// True when some collection carries this id.
    pub open spec fn has_collection_id(&self, id: i32) -> bool {
        exists|i: int|
            0 <= i < self.spec_collections().len()
                && (#[trigger] self.spec_collections()[i].spec_id()) == id
    }

    /// True when some collection carries this exact name.
    pub open spec fn has_collection_named(&self, name: Seq<char>) -> bool {
        exists|i: int|
            0 <= i < self.spec_collections().len()
                && (#[trigger] self.spec_collections()[i].spec_name()) == name
    }

    pub fn new() -> (lib: Library)
        ensures
            lib.wf(),
            lib.spec_collections() == Seq::<Collection>::empty(),
            lib.books_view() == Seq::<Seq<char>>::empty(),
            lib.spec_next_id() == FIRST_COLLECTION_ID,
    {
        let lib = Library { collections: vec![], books: vec![], next_id: FIRST_COLLECTION_ID };
        proof {
            assert(lib.books_view() =~= Seq::<Seq<char>>::empty());
        }
        lib
    }

    /// The id the next created collection will receive. Callers use it to
    /// check that the monotonic counter has room before a creating operation.
    pub fn next_collection_id(&self) -> (r: i32)
        ensures
            r == self.spec_next_id(),
    {
        self.next_id
    }

    /// Total size of the flat book list at the instant of the call.
    pub fn collection_count_books(&self) -> (n: usize)
        ensures
            n == self.books_view().len(),
    {
        self.books.len()
    }

    /// Append a book to the flat list only.
    fn add_book(&mut self, book: Book)
        ensures
            final(self).books_view() == old(self).books_view().push(book@),
            final(self).spec_collections() == old(self).spec_collections(),
            final(self).spec_next_id() == old(self).spec_next_id(),
    {
        let ghost prev = self.books_view();
        self.books.push(book);
        proof {
            assert(self.books_view() =~= prev.push(book@));
        }
    }

    /// The index of the collection carrying `id`, if any.
    fn find_index_by_id(&self, id: i32) -> (r: Option<usize>)
        ensures
            match r {
                Some(i) => 0 <= i < self.spec_collections().len()
                    && self.spec_collections()[i as int].spec_id() == id,
                None => !self.has_collection_id(id),
            },
    {
        let mut i: usize = 0;
        while i < self.collections.len()
            invariant
                0 <= i <= self.spec_collections().len(),
                forall|j: int|
                    0 <= j < i ==> (#[trigger] self.spec_collections()[j].spec_id()) != id,
            decreases self.spec_collections().len() - i,
        {
            if self.collections[i].id() == id {
                return Some(i);
            }
            i = i + 1;
        }
        None
    }

    /// What holds after a book is registered against an existing collection:
    /// the flat list and that collection's list each grew by the one ISBN,
    /// and everything else is untouched.
    pub open spec fn book_added_to_collection(
        pre: Library,
        post: Library,
        isbn: Seq<char>,
        id: i32,
    ) -> bool {
        &&& post.books_view() == pre.books_view().push(isbn)
        &&& post.spec_next_id() == pre.spec_next_id()
        &&& post.spec_collections().len() == pre.spec_collections().len()
        &&& exists|i: int|
            {
                &&& 0 <= i < pre.spec_collections().len()
                &&& (#[trigger] pre.spec_collections()[i].spec_id()) == id
                &&& post.spec_collections()[i].spec_id() == id
                &&& post.spec_collections()[i].spec_name() == pre.spec_collections()[i].spec_name()
                &&& post.spec_collections()[i].books_view()
                    == pre.spec_collections()[i].books_view().push(isbn)
                &&& forall|j: int|
                    0 <= j < pre.spec_collections().len() && j != i
                        ==> #[trigger] post.spec_collections()[j] == pre.spec_collections()[j]
            }
    }

    /// The full contract of `register_book`, relating the catalog before and
    /// after the call to the result. A failed registration (unknown collection
    /// id) leaves the catalog exactly as it was.
    pub open spec fn register_book_post(
        pre: Library,
        post: Library,
        isbn: Seq<char>,
        collection: Option<i32>,
        r: Result<(), Error>,
    ) -> bool {
        match collection {
            None => {
                &&& r is Ok
                &&& post.books_view() == pre.books_view().push(isbn)
                &&& post.spec_collections() == pre.spec_collections()
                &&& post.spec_next_id() == pre.spec_next_id()
            },
            Some(id) => {
                if pre.has_collection_id(id) {
                    &&& r is Ok
                    &&& Self::book_added_to_collection(pre, post, isbn, id)
                } else {
                    &&& r == Result::<(), Error>::Err(Error::NoSuchCollectionId(id))
                    &&& post == pre
                }
            },
        }
    }

    /// Append the book to the flat list, then to the collection carrying
    /// `collection_id`. The lookup happens before anything is committed, so a
    /// failed lookup leaves the catalog unchanged.
    fn add_book_with_collection(&mut self, book: Book, collection_id: i32) -> (r: Result<(), Error>)
        requires
            old(self).wf(),
        ensures
            final(self).wf(),
            Self::register_book_post(
                *old(self),
                *final(self),
                book@,
                Some(collection_id),
                r,
            ),
    {
        let found = self.find_index_by_id(collection_id);
        match found {
            None => Err(Error::NoSuchCollectionId(collection_id)),
            Some(i) => {
                let ghost pre = *self;
                let copy = book.clone();
                self.books.push(copy);
                proof {
                    assert(self.books_view() =~= pre.books_view().push(book@));
                }
                let ghost mid = *self;
                let c = &mut self.collections[i];
                c.add_book(book);
                proof {
                    assert(self.spec_collections() =~= mid.spec_collections().update(
                        i as int,
                        self.spec_collections()[i as int],
                    ));
                    assert forall|a: int, k: int|
                        0 <= a < self.spec_collections().len() && 0 <= k
                            < self.spec_collections()[a].books_view().len() implies self.books_view().contains(
                        #[trigger] self.spec_collections()[a].books_view()[k],
                    ) by {
                        if a == i && k == self.spec_collections()[a].books_view().len() - 1 {
                            assert(self.spec_collections()[a].books_view()[k] == book@);
                            assert(self.books_view()[self.books_view().len() - 1] == book@);
                        } else {
                            assert(pre.books_view().contains(
                                pre.spec_collections()[a].books_view()[k],
                            ));
                            let w = choose|w: int|
                                0 <= w < pre.books_view().len() && pre.books_view()[w]
                                    == pre.spec_collections()[a].books_view()[k];
                            assert(self.books_view()[w]
                                == pre.spec_collections()[a].books_view()[k]);
                        }
                    }
                }
                Ok(())
            },
        }
    }

    /// Register a new book with the given ISBN. With no collection id the book
    /// goes to the flat list only; with one, the collection must exist, and on
    /// failure the catalog is left unchanged.
    pub fn register_book(&mut self, isbn: String, collection: Option<i32>) -> (r: Result<
        (),
        Error,
    >)
        requires
            old(self).wf(),
        ensures
            final(self).wf(),
            Self::register_book_post(*old(self), *final(self), isbn@, collection, r),
    {
        let new_book = Book::new(isbn);
        match collection {
            Some(id) => self.add_book_with_collection(new_book, id),
            None => {
                let ghost pre = *self;
                self.add_book(new_book);
                proof {
                    assert forall|a: int, k: int|
                        0 <= a < self.spec_collections().len() && 0 <= k
                            < self.spec_collections()[a].books_view().len() implies self.books_view().contains(
                        #[trigger] self.spec_collections()[a].books_view()[k],
                    ) by {
                        assert(pre.books_view().contains(
                            pre.spec_collections()[a].books_view()[k],
                        ));
                        let w = choose|w: int|
                            0 <= w < pre.books_view().len() && pre.books_view()[w]
                                == pre.spec_collections()[a].books_view()[k];
                        assert(self.books_view()[w] == pre.spec_collections()[a].books_view()[k]);
                    }
                }
                Ok(())
            },
        }
    }

    /// What holds after a collection is created: it is appended with the next
    /// id, the counter advances, and nothing else moves.
    pub open spec fn collection_created(
        pre: Library,
        post: Library,
        name: Seq<char>,
        id: i32,
    ) -> bool {
        &&& id == pre.spec_next_id()
        &&& post.spec_next_id() == pre.spec_next_id() + 1
        &&& post.books_view() == pre.books_view()
        &&& post.spec_collections().len() == pre.spec_collections().len() + 1
        &&& forall|j: int|
            0 <= j < pre.spec_collections().len() ==> #[trigger] post.spec_collections()[j]
                == pre.spec_collections()[j]
        &&& post.spec_collections().last().spec_id() == id
        &&& post.spec_collections().last().spec_name() == name
        &&& post.spec_collections().last().books_view() == Seq::<Seq<char>>::empty()
    }

    /// Create a collection with the given name and the next free id,
    /// unconditionally (no name-uniqueness check here: the unique-name
    /// guarantee comes from `get_or_create_collection` being the only
    /// creation path used by the dispatcher).
    pub fn new_collection(&mut self, name: &str) -> (id: i32)
        requires
            old(self).wf(),
            old(self).spec_next_id() < i32::MAX,
        ensures
            final(self).wf(),
            Self::collection_created(*old(self), *final(self), name@, id),
    {
        let new_id = self.next_id;
        let ghost pre = *self;
        self.collections.push(Collection::new(new_id, String::from_str(name)));
        self.next_id = self.next_id + 1;
        proof {
            let post = *self;
            assert forall|i: int, k: int|
                0 <= i < post.spec_collections().len() && 0 <= k
                    < post.spec_collections()[i].books_view().len() implies post.books_view().contains(
                #[trigger] post.spec_collections()[i].books_view()[k],
            ) by {
                if i < pre.spec_collections().len() {
                    assert(post.spec_collections()[i] == pre.spec_collections()[i]);
                    assert(pre.books_view().contains(pre.spec_collections()[i].books_view()[k]));
                } else {
                    assert(post.spec_collections()[i].books_view().len() == 0);
                }
            }
        }
        new_id
    }

    /// The full contract of `find_collection_by_name`: the id of the first
    /// collection with exactly this name, if any.
    pub open spec fn find_by_name_post(lib: Library, name: Seq<char>, r: Option<i32>) -> bool {
        match r {
            Some(id) => exists|i: int|
                {
                    &&& 0 <= i < lib.spec_collections().len()
                    &&& (#[trigger] lib.spec_collections()[i].spec_name()) == name
                    &&& lib.spec_collections()[i].spec_id() == id
                    &&& forall|j: int|
                        0 <= j < i ==> (#[trigger] lib.spec_collections()[j].spec_name()) != name
                },
            None => !lib.has_collection_named(name),
        }
    }

    /// Exact-name lookup: the id of the first collection named `name`.
    pub fn find_collection_by_name(&self, name: &str) -> (r: Option<i32>)
        ensures
            Self::find_by_name_post(*self, name@, r),
            r is Some <==> self.has_collection_named(name@),
    {
        let query = String::from_str(name);
        let mut i: usize = 0;
        while i < self.collections.len()
            invariant
                0 <= i <= self.spec_collections().len(),
                query@ == name@,
                forall|j: int|
                    0 <= j < i ==> (#[trigger] self.spec_collections()[j].spec_name()) != name@,
            decreases self.spec_collections().len() - i,
        {
            if self.collections[i].name_matches(&query) {
                return Some(self.collections[i].id());
            }
            i = i + 1;
        }
        None
    }

    /// The full contract of `get_or_create_collection`. A found name leaves the
    /// catalog unchanged and returns the first matching id; a missing name is
    /// created only when requested, with the next free id; otherwise the call
    /// fails and changes nothing.
    pub open spec fn get_or_create_post(
        pre: Library,
        post: Library,
        name: Seq<char>,
        create_if_missing: bool,
        r: Result<i32, Error>,
    ) -> bool {
        if pre.has_collection_named(name) {
            &&& post == pre
            &&& r is Ok
            &&& Self::find_by_name_post(pre, name, Some(r->Ok_0))
        } else if create_if_missing {
            &&& r is Ok
            &&& Self::collection_created(pre, post, name, r->Ok_0)
        } else {
            &&& post == pre
            &&& r matches Err(Error::CollectionNotFound(n)) && n@ == name
        }
    }

    /// One indivisible lookup-then-maybe-create step: look a collection up by
    /// exact name; if found, return its id; if missing and `create_if_missing`
    /// holds, create it under the next free id; otherwise fail and change
    /// nothing. Callers that share the catalog must call this as one critical
    /// section, which a single `&mut self` method guarantees.
    pub fn get_or_create_collection(&mut self, name: &str, create_if_missing: bool) -> (r: Result<
        i32,
        Error,
    >)
        requires
            old(self).wf(),
            old(self).spec_next_id() < i32::MAX,
        ensures
            final(self).wf(),
            Self::get_or_create_post(*old(self), *final(self), name@, create_if_missing, r),
    {
        let found = self.find_collection_by_name(name);
        match found {
            Some(id) => Ok(id),
            None => {
                if create_if_missing {
                    Ok(self.new_collection(name))
                } else {
                    Err(Error::CollectionNotFound(String::from_str(name)))
                }
            },
        }
    }
}

/// Law: a successful registration without a collection grows the flat book
/// count by exactly one and changes no collection's book list (and no id).
pub proof fn lemma_register_alone_grows_flat_list_only(
    pre: Library,
    post: Library,
    isbn: Seq<char>,
    r: Result<(), Error>,
)
    requires
        Library::register_book_post(pre, post, isbn, None, r),
    ensures
        r is Ok,
        post.books_view().len() == pre.books_view().len() + 1,
        post.spec_collections() == pre.spec_collections(),
        post.spec_next_id() == pre.spec_next_id(),
{
}

/// Law: a registration against an id no collection carries fails and leaves
/// the whole catalog — flat book count and every collection's book list —
/// exactly as it was.
pub proof fn lemma_register_failure_changes_nothing(
    pre: Library,
    post: Library,
    isbn: Seq<char>,
    id: i32,
    r: Result<(), Error>,
)
    requires
        !pre.has_collection_id(id),
        Library::register_book_post(pre, post, isbn, Some(id), r),
    ensures
        r == Result::<(), Error>::Err(Error::NoSuchCollectionId(id)),
        post == pre,
        post.books_view() == pre.books_view(),
        post.spec_collections() == pre.spec_collections(),
{
}

/// Law: first-match lookup is a function of the catalog — two results for the
/// same name agree.
pub proof fn lemma_find_by_name_unique(lib: Library, name: Seq<char>, id1: i32, id2: i32)
    requires
        Library::find_by_name_post(lib, name, Some(id1)),
        Library::find_by_name_post(lib, name, Some(id2)),
    ensures
        id1 == id2,
{
    let i1 = choose|i: int|
        {
            &&& 0 <= i < lib.spec_collections().len()
            &&& (#[trigger] lib.spec_collections()[i].spec_name()) == name
            &&& lib.spec_collections()[i].spec_id() == id1
            &&& forall|j: int|
                0 <= j < i ==> (#[trigger] lib.spec_collections()[j].spec_name()) != name
        };
    let i2 = choose|i: int|
        {
            &&& 0 <= i < lib.spec_collections().len()
            &&& (#[trigger] lib.spec_collections()[i].spec_name()) == name
            &&& lib.spec_collections()[i].spec_id() == id2
            &&& forall|j: int|
                0 <= j < i ==> (#[trigger] lib.spec_collections()[j].spec_name()) != name
        };
    assert(i1 == i2);
}

/// Law: repeated get-or-create with the same name is idempotent, and all
/// callers observe one id. After a first call with `create_if_missing`, a
/// second call with the same name returns the very same id and leaves the
/// catalog untouched; starting from a catalog without the name, exactly one
/// collection with that name exists afterwards.
pub proof fn lemma_get_or_create_agree(
    s0: Library,
    s1: Library,
    s2: Library,
    name: Seq<char>,
    r1: Result<i32, Error>,
    r2: Result<i32, Error>,
)
    requires
        s0.wf(),
        Library::get_or_create_post(s0, s1, name, true, r1),
        Library::get_or_create_post(s1, s2, name, true, r2),
    ensures
        r1 is Ok && r2 is Ok && r1->Ok_0 == r2->Ok_0,
        s2 == s1,
        !s0.has_collection_named(name) ==> forall|i: int, j: int|
            0 <= i < s1.spec_collections().len() && 0 <= j < s1.spec_collections().len() && (
            #[trigger] s1.spec_collections()[i].spec_name()) == name && (
            #[trigger] s1.spec_collections()[j].spec_name()) == name ==> i == j,
{
    if s0.has_collection_named(name) {
        assert(s1 == s0);
        assert(s1.has_collection_named(name));
        lemma_find_by_name_unique(s0, name, r1->Ok_0, r2->Ok_0);
    } else {
        let last = s1.spec_collections().len() - 1;
        assert(s1.spec_collections()[last].spec_name() == name);
        assert(s1.has_collection_named(name));
        assert forall|i: int|
            0 <= i < s1.spec_collections().len()
                && (#[trigger] s1.spec_collections()[i].spec_name()) == name implies i == last by {
            if i < last {
                assert(s1.spec_collections()[i] == s0.spec_collections()[i]);
                assert(s0.has_collection_named(name));
            }
        }
        assert(Library::find_by_name_post(s1, name, Some(r2->Ok_0)));
        let i2 = choose|i: int|
            {
                &&& 0 <= i < s1.spec_collections().len()
                &&& (#[trigger] s1.spec_collections()[i].spec_name()) == name
                &&& s1.spec_collections()[i].spec_id() == r2->Ok_0
                &&& forall|j: int|
                    0 <= j < i ==> (#[trigger] s1.spec_collections()[j].spec_name()) != name
            };
        assert(i2 == last);
        assert(r2->Ok_0 == r1->Ok_0);
    }
}

/// Law: issued collection ids strictly increase and are never reused. A
/// creation returns an id strictly above every id already in the catalog, and
/// two successive creations issue strictly increasing ids — whatever failed
/// attempts (which leave the catalog unchanged) come in between.
pub proof fn lemma_issued_ids_strictly_increase(
    s0: Library,
    s1: Library,
    s2: Library,
    name1: Seq<char>,
    name2: Seq<char>,
    r1: Result<i32, Error>,
    r2: Result<i32, Error>,
)
    requires
        s0.wf(),
        !s0.has_collection_named(name1),
        Library::get_or_create_post(s0, s1, name1, true, r1),
        !s1.has_collection_named(name2),
        Library::get_or_create_post(s1, s2, name2, true, r2),
    ensures
        r1 is Ok && r2 is Ok,
        r1->Ok_0 < r2->Ok_0,
        forall|i: int|
            0 <= i < s0.spec_collections().len() ==> (
            #[trigger] s0.spec_collections()[i].spec_id()) < r1->Ok_0,
{
}

} // verus!

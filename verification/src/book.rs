use vstd::prelude::*;

verus! {

/// A registered book. The ISBN is fixed at construction and never mutated;
/// duplicates are permitted by design (no uniqueness check on ISBN).
#[derive(Debug)]
pub struct Book {
    isbn: String,
}

impl View for Book {
    type V = Seq<char>;

    closed spec fn view(&self) -> Seq<char> {
        self.isbn@
    }
}

impl Clone for Book {
    fn clone(&self) -> (r: Self)
        ensures
            r@ == self@,
    {
        Book { isbn: self.isbn.clone() }
    }
}

impl Book {
    pub fn new(isbn: String) -> (b: Book)
        ensures
            b@ == isbn@,
    {
        Book { isbn }
    }

    pub fn isbn(&self) -> (r: &str)
        ensures
            r@ == self@,
    {
        self.isbn.as_str()
    }
}

} // verus!

use catalog::book::Book;
use catalog::collection::Collection;
use catalog::error::Error;
use catalog::library::Library;

#[test]
fn book_keeps_its_isbn() {
    let b = Book::new("9780000000001".to_string());
    assert_eq!(b.isbn(), "9780000000001");
}

#[test]
fn collection_accessors() {
    let mut c = Collection::new(3, "Sci-Fi".to_string());
    assert_eq!(c.id(), 3);
    assert_eq!(c.name(), "Sci-Fi");
    assert_eq!(c.collection_size(), 0);
    c.add_book(Book::new("123".to_string()));
    assert_eq!(c.collection_size(), 1);
    c.set_name("Fantasy".to_string());
    assert_eq!(c.name(), "Fantasy");
    assert_eq!(c.id(), 3);
    assert_eq!(c.collection_size(), 1);
}

#[test]
fn register_book_without_collection_grows_flat_list_only() {
    let mut lib = Library::new();
    let id = lib.new_collection("shelf");
    assert_eq!(lib.collection_count_books(), 0);
    let r = lib.register_book("111".to_string(), None);
    assert!(r.is_ok());
    assert_eq!(lib.collection_count_books(), 1);
    // the collection's own list did not change
    let r2 = lib.register_book("222".to_string(), Some(id));
    assert!(r2.is_ok());
    assert_eq!(lib.collection_count_books(), 2);
}

#[test]
fn register_book_against_missing_collection_changes_nothing() {
    let mut lib = Library::new();
    let r = lib.register_book("123".to_string(), Some(1));
    assert_eq!(r, Err(Error::NoSuchCollectionId(1)));
    assert_eq!(lib.collection_count_books(), 0);
}

#[test]
fn register_book_failure_leaves_collections_unchanged() {
    let mut lib = Library::new();
    let id = lib.new_collection("shelf");
    lib.register_book("111".to_string(), Some(id)).unwrap();
    assert_eq!(lib.collection_count_books(), 1);
    let before = lib.collection_count_books();
    let r = lib.register_book("222".to_string(), Some(id + 40));
    assert_eq!(r, Err(Error::NoSuchCollectionId(id + 40)));
    assert_eq!(lib.collection_count_books(), before);
}

#[test]
fn duplicate_isbns_are_permitted() {
    let mut lib = Library::new();
    assert!(lib.register_book("same".to_string(), None).is_ok());
    assert!(lib.register_book("same".to_string(), None).is_ok());
    assert_eq!(lib.collection_count_books(), 2);
}

#[test]
fn new_collection_issues_sequential_ids() {
    let mut lib = Library::new();
    assert_eq!(lib.new_collection("a"), 1);
    assert_eq!(lib.new_collection("b"), 2);
    assert_eq!(lib.new_collection("c"), 3);
}

#[test]
fn find_collection_by_name_exact_match() {
    let mut lib = Library::new();
    let a = lib.new_collection("alpha");
    let b = lib.new_collection("beta");
    assert_eq!(lib.find_collection_by_name("alpha"), Some(a));
    assert_eq!(lib.find_collection_by_name("beta"), Some(b));
    assert_eq!(lib.find_collection_by_name("alph"), None);
    assert_eq!(lib.find_collection_by_name("Alpha"), None);
}

#[test]
fn get_or_create_is_idempotent() {
    let mut lib = Library::new();
    let first = lib.get_or_create_collection("X", true);
    assert_eq!(first, Ok(1));
    let second = lib.get_or_create_collection("X", true);
    assert_eq!(second, Ok(1));
}

#[test]
fn get_or_create_without_create_fails_and_creates_nothing() {
    let mut lib = Library::new();
    let r = lib.get_or_create_collection("ghost", false);
    match r {
        Err(Error::CollectionNotFound(name)) => assert_eq!(name, "ghost"),
        other => panic!("unexpected result: {:?}", other),
    }
    assert_eq!(lib.find_collection_by_name("ghost"), None);
}

#[test]
fn ids_strictly_increase_across_interleaved_failures() {
    let mut lib = Library::new();
    let a = lib.get_or_create_collection("one", true).unwrap();
    // a failed creation attempt in between issues no id
    assert!(lib.get_or_create_collection("missing", false).is_err());
    let b = lib.get_or_create_collection("two", true).unwrap();
    assert!(lib.get_or_create_collection("also-missing", false).is_err());
    let c = lib.get_or_create_collection("three", true).unwrap();
    assert!(a < b && b < c);
    assert_eq!((a, b, c), (1, 2, 3));
}

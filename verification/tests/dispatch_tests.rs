use catalog::error::Error;
use catalog::http::Method;
use catalog::library::Library;

#[test]
fn register_then_lookup_unknown_collection() {
    let mut lib = Library::new();
    let r = Method::POST.handle_request("/book?isbn=9780000000001", &mut lib).unwrap();
    assert_eq!(r.status, 200);
    assert_eq!(r.body, "");
    assert_eq!(lib.collection_count_books(), 1);
    let r = Method::GET.handle_request("/collection?name=X", &mut lib).unwrap();
    assert_eq!(r.status, 404);
    assert_eq!(r.body, "Collection named 'X' does not exist, and will not create it");
}

#[test]
fn get_or_create_endpoint_is_idempotent() {
    let mut lib = Library::new();
    let r = Method::GET.handle_request("/collection?name=X&create=true", &mut lib).unwrap();
    assert_eq!(r.status, 200);
    assert_eq!(r.body, "1");
    let r = Method::GET.handle_request("/collection?name=X&create=true", &mut lib).unwrap();
    assert_eq!(r.status, 200);
    assert_eq!(r.body, "1");
}

#[test]
fn register_against_missing_collection_id_fails_unchanged() {
    let mut lib = Library::new();
    let before = lib.collection_count_books();
    let r = Method::POST.handle_request("/book?isbn=123&collection_id=1", &mut lib);
    assert_eq!(r, Err(Error::NoSuchCollectionId(1)));
    assert_eq!(lib.collection_count_books(), before);
}

#[test]
fn register_into_existing_collection() {
    let mut lib = Library::new();
    let r = Method::GET.handle_request("/collection?name=shelf&create=true", &mut lib).unwrap();
    assert_eq!(r.body, "1");
    let r = Method::POST.handle_request("/book?isbn=42&collection_id=1", &mut lib).unwrap();
    assert_eq!(r.status, 200);
    assert_eq!(lib.collection_count_books(), 1);
}

#[test]
fn malformed_query_is_bad_request() {
    let mut lib = Library::new();
    let r = Method::POST.handle_request("/book?isbn", &mut lib).unwrap();
    assert_eq!(r.status, 400);
    assert_eq!(r.body, "");
    assert_eq!(lib.collection_count_books(), 0);
}

#[test]
fn missing_or_empty_isbn_is_bad_request() {
    let mut lib = Library::new();
    let r = Method::POST.handle_request("/book", &mut lib).unwrap();
    assert_eq!(r.status, 400);
    let r = Method::POST.handle_request("/book?isbn=", &mut lib).unwrap();
    assert_eq!(r.status, 400);
    assert_eq!(lib.collection_count_books(), 0);
}

#[test]
fn missing_or_empty_name_is_bad_request() {
    let mut lib = Library::new();
    let r = Method::GET.handle_request("/collection", &mut lib).unwrap();
    assert_eq!(r.status, 400);
    let r = Method::GET.handle_request("/collection?name=", &mut lib).unwrap();
    assert_eq!(r.status, 400);
}

#[test]
fn create_must_be_exactly_true() {
    let mut lib = Library::new();
    let r = Method::GET.handle_request("/collection?name=X&create=TRUE", &mut lib).unwrap();
    assert_eq!(r.status, 404);
    let r = Method::GET.handle_request("/collection?name=X&create=yes", &mut lib).unwrap();
    assert_eq!(r.status, 404);
    let r = Method::GET.handle_request("/collection?name=X&create=true", &mut lib).unwrap();
    assert_eq!(r.status, 200);
}

#[test]
fn non_integer_collection_id_is_surfaced() {
    let mut lib = Library::new();
    let r = Method::POST.handle_request("/book?isbn=1&collection_id=abc", &mut lib);
    match r {
        Err(Error::InvalidCollectionId(s)) => assert_eq!(s, "abc"),
        other => panic!("unexpected result: {:?}", other),
    }
    assert_eq!(lib.collection_count_books(), 0);
}

#[test]
fn method_not_allowed_for_endpoint() {
    let mut lib = Library::new();
    let r = Method::GET.handle_request("/book", &mut lib).unwrap();
    assert_eq!(r.status, 405);
    assert_eq!(r.body, "");
    let r = Method::POST.handle_request("/collection?name=X", &mut lib).unwrap();
    assert_eq!(r.status, 405);
    assert_eq!(r.body, "");
}

#[test]
fn unknown_endpoint_is_bad_request() {
    let mut lib = Library::new();
    let r = Method::GET.handle_request("/other", &mut lib).unwrap();
    assert_eq!(r.status, 400);
    let r = Method::POST.handle_request("", &mut lib).unwrap();
    assert_eq!(r.status, 400);
}

#[test]
fn signed_collection_id_follows_integer_grammar() {
    let mut lib = Library::new();
    let r = Method::GET.handle_request("/collection?name=shelf&create=true", &mut lib).unwrap();
    assert_eq!(r.body, "1");
    // a leading plus and leading zeros are valid decimal integer syntax
    let r = Method::POST.handle_request("/book?isbn=1&collection_id=+1", &mut lib).unwrap();
    assert_eq!(r.status, 200);
    let r = Method::POST.handle_request("/book?isbn=2&collection_id=01", &mut lib).unwrap();
    assert_eq!(r.status, 200);
    // a negative id is well-formed but matches no collection
    let r = Method::POST.handle_request("/book?isbn=3&collection_id=-1", &mut lib);
    assert_eq!(r, Err(Error::NoSuchCollectionId(-1)));
    assert_eq!(lib.collection_count_books(), 2);
}

#[test]
fn multibyte_names_round_trip() {
    let mut lib = Library::new();
    let r = Method::GET.handle_request("/collection?name=Größe&create=true", &mut lib).unwrap();
    assert_eq!(r.status, 200);
    assert_eq!(r.body, "1");
    let r = Method::GET.handle_request("/collection?name=Größe", &mut lib).unwrap();
    assert_eq!(r.status, 200);
    assert_eq!(r.body, "1");
}

#[test]
fn error_accessor_reports_variant() {
    let e = Error::NoSuchCollectionId(7);
    assert_eq!(e.no_such_collection_id(), Some(7));
    let e = Error::CollectionNotFound("x".to_string());
    assert_eq!(e.no_such_collection_id(), None);
}

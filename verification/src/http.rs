use vstd::prelude::*;

use crate::error::Error;
use crate::library::Library;
use crate::numeric::{int_value, is_i32_string, parse_i32, u32_to_string, dec_str};
use crate::parser::{parse_url, spec_endpoint, spec_params, QueryParams};

verus! {

/// The allow-listed request methods. Anything else is rejected by the
/// transport layer before dispatch ever runs.
#[derive(Clone, Copy, Debug)]
pub enum Method {
    GET,
    POST,
}

/// A response outcome: a status code and a body. The caller turns it into a
/// transport-level reply.
#[derive(Debug, PartialEq)]
pub struct HttpResponse {
    pub status: u16,
    pub body: String,
}

/// The explanatory body of a not-found collection lookup.
pub open spec fn not_found_message(name: Seq<char>) -> Seq<char> {
    "Collection named '"@ + name + "' does not exist, and will not create it"@
}

/// An empty response with the given status.
pub open spec fn empty_response(r: Result<HttpResponse, Error>, status: u16) -> bool {
    r matches Ok(resp) && resp.status == status && resp.body@ == Seq::<char>::empty()
}

/// What `POST /book` leaves behind, given the parameter map: a missing,
/// valueless or empty `isbn` is a bad request that changes nothing; a
/// `collection_id` that is not a decimal integer, or that no collection
/// carries, is a surfaced failure that changes nothing; otherwise the book is
/// registered and the response is an empty success.
pub open spec fn register_request_post(
    ps: Map<Seq<char>, Option<Seq<char>>>,
    pre: Library,
    post: Library,
    r: Result<HttpResponse, Error>,
) -> bool {
    if !ps.contains_key("isbn"@) || ps["isbn"@] is None || ps["isbn"@]->0.len() == 0 {
        &&& post == pre
        &&& empty_response(r, 400)
    } else {
        let isbn = ps["isbn"@]->0;
        if ps.contains_key("collection_id"@) && ps["collection_id"@] is Some {
            let cs = ps["collection_id"@]->0;
            if is_i32_string(cs) {
                let id = int_value(cs) as i32;
                if pre.has_collection_id(id) {
                    &&& Library::register_book_post(pre, post, isbn, Some(id), Ok(()))
                    &&& empty_response(r, 200)
                } else {
                    &&& post == pre
                    &&& r matches Err(e) && e == Error::NoSuchCollectionId(id)
                }
            } else {
                &&& post == pre
                &&& r matches Err(Error::InvalidCollectionId(c)) && c@ == cs
            }
        } else {
            &&& Library::register_book_post(pre, post, isbn, None, Ok(()))
            &&& empty_response(r, 200)
        }
    }
}

/// A successful collection response: some id that the atomic get-or-create
/// answered, rendered in decimal with status 200.
pub open spec fn answers_collection_id(
    pre: Library,
    post: Library,
    name: Seq<char>,
    create: bool,
    resp: HttpResponse,
) -> bool {
    exists|id: i32|
        {
            &&& #[trigger] Library::get_or_create_post(pre, post, name, create, Ok(id))
            &&& id >= 0
            &&& resp.status == 200
            &&& resp.body@ == dec_str(id as nat)
        }
}

/// What `GET /collection` leaves behind, given the parameter map: a missing,
/// valueless or empty `name` is a bad request that changes nothing; otherwise
/// the atomic get-or-create runs, with creation only when `create` is exactly
/// `"true"`, answering the id in decimal on success and a not-found outcome
/// with an explanatory body when the name is absent and not created.
pub open spec fn collection_request_post(
    ps: Map<Seq<char>, Option<Seq<char>>>,
    pre: Library,
    post: Library,
    r: Result<HttpResponse, Error>,
) -> bool {
    if !ps.contains_key("name"@) || ps["name"@] is None || ps["name"@]->0.len() == 0 {
        &&& post == pre
        &&& empty_response(r, 400)
    } else {
        let name = ps["name"@]->0;
        let create = ps.contains_key("create"@) && ps["create"@] == Some("true"@);
        if pre.has_collection_named(name) || create {
            r matches Ok(resp) && answers_collection_id(pre, post, name, create, resp)
        } else {
            &&& post == pre
            &&& r matches Ok(resp) && resp.status == 404 && resp.body@ == not_found_message(name)
        }
    }
}

/// The whole routing table. A query holding any key without `=` is malformed
/// and a bad request, before endpoint logic runs; `/book` accepts only POST
/// (register) and `/collection` only GET (get-or-create); anything else is a
/// bad request. Every rejection leaves the catalog unchanged.
pub open spec fn dispatch_post(
    m: Method,
    url: Seq<char>,
    pre: Library,
    post: Library,
    r: Result<HttpResponse, Error>,
) -> bool {
    let ep = spec_endpoint(url);
    let ps = spec_params(url);
    if exists|k: Seq<char>| #[trigger] ps.contains_key(k) && ps[k] is None {
        &&& post == pre
        &&& empty_response(r, 400)
    } else if ep == "/book"@ {
        match m {
            Method::GET => post == pre && empty_response(r, 405),
            Method::POST => register_request_post(ps, pre, post, r),
        }
    } else if ep == "/collection"@ {
        match m {
            Method::GET => collection_request_post(ps, pre, post, r),
            Method::POST => post == pre && empty_response(r, 405),
        }
    } else {
        &&& post == pre
        &&& empty_response(r, 400)
    }
}

fn empty_body(status: u16) -> (r: HttpResponse)
    ensures
        r.status == status,
        r.body@ == Seq::<char>::empty(),
{
    HttpResponse { status, body: String::new() }
}

/// Handle `POST /book`: requires `isbn` present and non-empty; registers the
/// book, against the given collection when `collection_id` is present.
fn register_book_request(params: &QueryParams, library: &mut Library) -> (r: Result<
    HttpResponse,
    Error,
>)
    requires
        params.wf(),
        old(library).wf(),
    ensures
        final(library).wf(),
        register_request_post(params@, *old(library), *final(library), r),
{
    match params.get("isbn") {
        Some(isbn_opt) => match isbn_opt {
            Some(isbn) => {
                if isbn.as_str().unicode_len() == 0 {
                    Ok(empty_body(400))
                } else {
                    let collection: Option<i32> = match params.get("collection_id") {
                        Some(cid_opt) => match cid_opt {
                            Some(cs) => match parse_i32(cs.as_str()) {
                                Some(id) => Some(id),
                                None => {
                                    return Err(Error::InvalidCollectionId(cs.clone()));
                                },
                            },
                            None => None,
                        },
                        None => None,
                    };
                    match library.register_book(isbn.clone(), collection) {
                        Ok(_) => Ok(empty_body(200)),
                        Err(e) => Err(e),
                    }
                }
            },
            None => Ok(empty_body(400)),
        },
        None => Ok(empty_body(400)),
    }
}

/// Handle `GET /collection`: requires `name` present and non-empty; runs the
/// atomic get-or-create, creating only when `create` is exactly `"true"`.
fn get_or_create_collection_request(params: &QueryParams, library: &mut Library) -> (r: Result<
    HttpResponse,
    Error,
>)
    requires
        params.wf(),
        old(library).wf(),
        old(library).spec_next_id() < i32::MAX,
    ensures
        final(library).wf(),
        collection_request_post(params@, *old(library), *final(library), r),
{
    match params.get("name") {
        Some(name_opt) => match name_opt {
            Some(name) => {
                if name.as_str().unicode_len() == 0 {
                    Ok(empty_body(400))
                } else {
                    let create = match params.get("create") {
                        Some(create_opt) => match create_opt {
                            Some(v) => *v == String::from_str("true"),
                            None => false,
                        },
                        None => false,
                    };
                    let ghost pre = *library;
                    match library.get_or_create_collection(name.as_str(), create) {
                        Ok(id) => {
                            proof {
                                assert(id >= 1);
                                assert(Library::get_or_create_post(
                                    pre,
                                    *library,
                                    name@,
                                    create,
                                    Ok(id),
                                ));
                            }
                            let body = u32_to_string(id as u32);
                            let result: Result<HttpResponse, Error> = Ok(
                                HttpResponse { status: 200, body },
                            );
                            proof {
                                assert(result->Ok_0.body@ == dec_str(id as nat));
                                assert(create == (params@.contains_key("create"@)
                                    && params@["create"@] == Some("true"@)));
                                assert(answers_collection_id(
                                    pre,
                                    *library,
                                    name@,
                                    create,
                                    result->Ok_0,
                                ));
                                assert(collection_request_post(params@, pre, *library, result));
                            }
                            result
                        },
                        Err(_) => {
                            let mut body = String::from_str("Collection named '");
                            body.append(name.as_str());
                            body.append("' does not exist, and will not create it");
                            let result: Result<HttpResponse, Error> = Ok(
                                HttpResponse { status: 404, body },
                            );
                            proof {
                                assert(create == (params@.contains_key("create"@)
                                    && params@["create"@] == Some("true"@)));
                                assert(result->Ok_0.body@ =~= not_found_message(name@));
                                assert(collection_request_post(params@, pre, *library, result));
                            }
                            result
                        },
                    }
                }
            },
            None => Ok(empty_body(400)),
        },
        None => Ok(empty_body(400)),
    }
}

impl Method {
    /// Dispatch one request: parse the path, reject malformed queries, route
    /// method and endpoint through the routing table, and run the catalog
    /// operation. The returned outcome carries the status and body to send; an
    /// `Err` is a surfaced operation failure the caller reports.
    pub fn handle_request(&self, url: &str, library: &mut Library) -> (r: Result<
        HttpResponse,
        Error,
    >)
        requires
            old(library).wf(),
            old(library).spec_next_id() < i32::MAX,
        ensures
            final(library).wf(),
            dispatch_post(*self, url@, *old(library), *final(library), r),
    {
        let parsed = parse_url(url);
        if parsed.params.any_value_absent() {
            return Ok(empty_body(400));
        }
        if parsed.endpoint == String::from_str("/book") {
            match self {
                Method::GET => Ok(empty_body(405)),
                Method::POST => register_book_request(&parsed.params, library),
            }
        } else if parsed.endpoint == String::from_str("/collection") {
            match self {
                Method::GET => get_or_create_collection_request(&parsed.params, library),
                Method::POST => Ok(empty_body(405)),
            }
        } else {
            Ok(empty_body(400))
        }
    }
}

} // verus!

use vstd::prelude::*;

verus! {

/// The recoverable failures of catalog operations and request dispatch.
/// None of these is process-fatal: callers translate each into a response.
#[derive(Debug, PartialEq)]
pub enum Error {
    /// A book registration referenced a collection id that does not exist.
    /// The catalog is left unchanged when this is returned.
    NoSuchCollectionId(i32),
    /// A lookup-only collection request found no collection with this name
    /// and creation was not requested.
    CollectionNotFound(String),
    /// The `collection_id` query parameter was present but not a valid
    /// decimal integer.
    InvalidCollectionId(String),
}

impl Error {
    /// Which variant this is, as a stable triple for unverified callers.
    pub fn no_such_collection_id(&self) -> (r: Option<i32>)
        ensures
            match *self {
                Error::NoSuchCollectionId(id) => r == Some(id),
                _ => r is None,
            },
    {
        match self {
            Error::NoSuchCollectionId(id) => Some(*id),
            _ => None,
        }
    }
}

} // verus!

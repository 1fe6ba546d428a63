//! Errors that API routes return to users: each has an HTTP status code, a
//! stable slug for client-side handling, and a human-readable description.

use vstd::prelude::*;
use vstd::string::*;

verus! {

broadcast use vstd::string::group_string_axioms;

/// HTTP 401 Unauthorized.
pub const UNAUTHORIZED: u16 = 401;

/// HTTP 404 Not Found.
pub const NOT_FOUND: u16 = 404;

/// HTTP 500 Internal Server Error.
pub const INTERNAL_SERVER_ERROR: u16 = 500;

/// An error that can be directly returned to a user from an API route.
pub trait MolluskError {
    /// The HTTP status code that the error should return.
    fn status_code(&self) -> u16;
    /// The unique slug for the error, to enable client-side handling.
    fn slug(&self) -> &'static str;
    /// The human-readable description for the error.
    fn description(&self) -> String;
}

/// The `Debug` form of a string: quoted, with special characters escaped.
pub uninterp spec fn debug_text(s: Seq<char>) -> Seq<char>;

/// `<str as Debug>::fmt`, through `format!("{:?}")`: the quoted, escaped
/// form of a string.
#[verifier::external_body]
fn debug_string(s: &str) -> (r: String)
    ensures
        r@ == debug_text(s@),
{
    format!("{:?}", s)
}

/// The store does not exist.
#[derive(Debug)]
pub struct NoMatchingStoreError(String);

impl NoMatchingStoreError {
    /// The error for the named store.
    pub fn new(store_name: String) -> (r: Self)
        ensures
            r.store_name() == store_name@,
    {
        NoMatchingStoreError(store_name)
    }

    /// The name of the store that was asked for.
    pub closed spec fn store_name(&self) -> Seq<char> {
        self.0@
    }
}

impl MolluskError for NoMatchingStoreError {
    fn status_code(&self) -> (r: u16)
        ensures
            r == NOT_FOUND,
    {
        NOT_FOUND
    }

    fn slug(&self) -> (r: &'static str)
        ensures
            r@ == "missing-store"@,
    {
        "missing-store"
    }

    fn description(&self) -> (r: String)
        ensures
            r@ == "The store "@ + debug_text(self.store_name()) + " does not exist."@,
    {
        let mut d = String::from_str("The store ");
        let quoted = debug_string(self.0.as_str());
        d.append(quoted.as_str());
        d.append(" does not exist.");
        d
    }
}

/// The store requires authentication.
#[derive(Debug)]
pub struct UnauthenticatedStoreAccessError(String);

impl UnauthenticatedStoreAccessError {
    /// The error for the named store.
    pub fn new(store_name: String) -> (r: Self)
        ensures
            r.store_name() == store_name@,
    {
        UnauthenticatedStoreAccessError(store_name)
    }

    /// The name of the store that was asked for.
    pub closed spec fn store_name(&self) -> Seq<char> {
        self.0@
    }
}

impl MolluskError for UnauthenticatedStoreAccessError {
    fn status_code(&self) -> (r: u16)
        ensures
            r == UNAUTHORIZED,
    {
        UNAUTHORIZED
    }

    fn slug(&self) -> (r: &'static str)
        ensures
            r@ == "unauthenticated-store-access"@,
    {
        "unauthenticated-store-access"
    }

    fn description(&self) -> (r: String)
        ensures
            r@ == "The store "@ + debug_text(self.store_name()) + " requires authentication."@,
    {
        let mut d = String::from_str("The store ");
        let quoted = debug_string(self.0.as_str());
        d.append(quoted.as_str());
        d.append(" requires authentication.");
        d
    }
}

/// Error for retrieving storage credentials.
#[derive(Debug)]
pub enum CredsFetchingError {
    /// The store does not exist.
    NoMatchingStore(String),
    /// An error occurred while building the store credentials.
    StoreInitError(String),
    /// Temp storage credentials could not be fetched.
    TempStorageCredsError(String),
    /// An error occurred while fetching the store from the database.
    SurrealDbStoreRetrievalError(String),
}

/// The description of a credentials-fetching error.
pub open spec fn creds_error_description(e: CredsFetchingError) -> Seq<char> {
    match e {
        CredsFetchingError::NoMatchingStore(name) => "The store \""@ + name@ + "\" does not exist."@,
        CredsFetchingError::TempStorageCredsError(m) => "An internal error occurred: "@ + m@,
        CredsFetchingError::SurrealDbStoreRetrievalError(m) => "An internal error occurred: "@ + m@,
        CredsFetchingError::StoreInitError(m) => "Failed to use store: "@ + m@,
    }
}

impl MolluskError for CredsFetchingError {
    fn status_code(&self) -> (r: u16)
        ensures
            r == (if self is NoMatchingStore {
                NOT_FOUND
            } else {
                INTERNAL_SERVER_ERROR
            }),
    {
        match self {
            CredsFetchingError::NoMatchingStore(_) => NOT_FOUND,
            CredsFetchingError::SurrealDbStoreRetrievalError(_)
            | CredsFetchingError::TempStorageCredsError(_)
            | CredsFetchingError::StoreInitError(_) => INTERNAL_SERVER_ERROR,
        }
    }

    fn slug(&self) -> (r: &'static str)
        ensures
            r@ == (if self is NoMatchingStore {
                "missing-store"@
            } else {
                "internal-error"@
            }),
    {
        match self {
            CredsFetchingError::NoMatchingStore(_) => "missing-store",
            CredsFetchingError::SurrealDbStoreRetrievalError(_)
            | CredsFetchingError::TempStorageCredsError(_)
            | CredsFetchingError::StoreInitError(_) => "internal-error",
        }
    }

    fn description(&self) -> (r: String)
        ensures
            r@ == creds_error_description(*self),
    {
        match self {
            CredsFetchingError::NoMatchingStore(store_name) => {
                let mut d = String::from_str("The store \"");
                d.append(store_name.as_str());
                d.append("\" does not exist.");
                d
            },
            CredsFetchingError::TempStorageCredsError(e) => {
                let mut d = String::from_str("An internal error occurred: ");
                d.append(e.as_str());
                d
            },
            CredsFetchingError::SurrealDbStoreRetrievalError(e) => {
                let mut d = String::from_str("An internal error occurred: ");
                d.append(e.as_str());
                d
            },
            CredsFetchingError::StoreInitError(e) => {
                let mut d = String::from_str("Failed to use store: ");
                d.append(e.as_str());
                d
            },
        }
    }
}

} // verus!

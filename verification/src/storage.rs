//! Storage credentials, storage errors, the temp-storage credentials read
//! from the environment, the path rules of local storage, and the paths of
//! object storage.

use vstd::prelude::*;
use vstd::string::*;

use crate::key::split_text;
use crate::text::{lossy_text, utf8_lossy_text};

verus! {

broadcast use vstd::string::group_string_axioms;

/// The declaration of `std::io::Error`, carried by storage errors.
#[verifier::external_type_specification]
#[verifier::external_body]
pub struct ExIoError(std::io::Error);

/// Credentials for an R2 (S3-compatible) bucket.
#[derive(Debug, Clone)]
pub enum R2StorageCredentials {
    /// Access key, secret, endpoint and bucket.
    Default { access_key: String, secret_access_key: String, endpoint: String, bucket: String },
}

/// Credentials for a storage backend.
#[derive(Debug, Clone)]
pub enum StorageCredentials {
    /// A directory on the local filesystem.
    Local(String),
    /// An R2 bucket.
    R2(R2StorageCredentials),
}

/// An error type used when reading from a `StorageClient`.
#[derive(Debug)]
pub enum ReadError {
    /// The path was not found in the storage; it holds the path as the
    /// operating system gave it (its raw bytes).
    NotFound(Vec<u8>),
    /// The path was invalid.
    InvalidPath(String),
    /// An IO error occurred.
    IoError(std::io::Error),
}

/// An error type used when writing to a `StorageClient`.
#[derive(Debug)]
pub enum WriteError {
    /// The path was invalid.
    InvalidPath(String),
    /// An IO error occurred.
    IoError(std::io::Error),
    /// An error occurred while uploading a multipart.
    MultipartError(String),
}

/// Error type for reading temp storage credentials from the environment.
#[derive(Debug)]
pub enum TempStorageCredsError {
    /// An environment variable is missing.
    MissingEnvVar(String),
}

/// Temporary storage credentials.
#[derive(Debug)]
pub struct TempStorageCreds {
    access_key: String,
    secret_access_key: String,
    endpoint: String,
    bucket: String,
}

/// The environment variables the temp storage credentials come from, in the
/// order they are read.
pub open spec fn temp_storage_vars() -> Seq<Seq<char>> {
    seq![
        "R2_TEMP_ACCESS_KEY"@,
        "R2_TEMP_SECRET_ACCESS_KEY"@,
        "R2_TEMP_ENDPOINT"@,
        "R2_TEMP_BUCKET"@,
    ]
}

impl TempStorageCreds {
    pub closed spec fn access_key(&self) -> Seq<char> {
        self.access_key@
    }

    pub closed spec fn secret_access_key(&self) -> Seq<char> {
        self.secret_access_key@
    }

    pub closed spec fn endpoint(&self) -> Seq<char> {
        self.endpoint@
    }

    pub closed spec fn bucket(&self) -> Seq<char> {
        self.bucket@
    }

    /// Creates a new set of temporary storage credentials.
    pub fn new(access_key: String, secret_access_key: String, endpoint: String, bucket: String) -> (r:
        Self)
        ensures
            r.access_key() == access_key@,
            r.secret_access_key() == secret_access_key@,
            r.endpoint() == endpoint@,
            r.bucket() == bucket@,
    {
        Self { access_key, secret_access_key, endpoint, bucket }
    }

    /// Builds the credentials from the values of the four environment
    /// variables (`None` where one is unset). The first unset variable, in
    /// reading order, is the one reported.
    pub fn from_env_values(
        access_key: Option<String>,
        secret_access_key: Option<String>,
        endpoint: Option<String>,
        bucket: Option<String>,
    ) -> (r: Result<Self, TempStorageCredsError>)
        ensures
            r is Ok <==> access_key is Some && secret_access_key is Some && endpoint is Some
                && bucket is Some,
            r matches Ok(c) ==> c.access_key() == access_key->0@ && c.secret_access_key()
                == secret_access_key->0@ && c.endpoint() == endpoint->0@ && c.bucket()
                == bucket->0@,
            r matches Err(TempStorageCredsError::MissingEnvVar(name)) ==> name@ == (
            if access_key is None {
                temp_storage_vars()[0]
            } else if secret_access_key is None {
                temp_storage_vars()[1]
            } else if endpoint is None {
                temp_storage_vars()[2]
            } else {
                temp_storage_vars()[3]
            }),
    {
        let access_key = match access_key {
            Some(v) => v,
            None => {
                return Err(
                    TempStorageCredsError::MissingEnvVar(String::from_str("R2_TEMP_ACCESS_KEY")),
                )
            },
        };
        let secret_access_key = match secret_access_key {
            Some(v) => v,
            None => {
                return Err(
                    TempStorageCredsError::MissingEnvVar(
                        String::from_str("R2_TEMP_SECRET_ACCESS_KEY"),
                    ),
                )
            },
        };
        let endpoint = match endpoint {
            Some(v) => v,
            None => {
                return Err(
                    TempStorageCredsError::MissingEnvVar(String::from_str("R2_TEMP_ENDPOINT")),
                )
            },
        };
        let bucket = match bucket {
            Some(v) => v,
            None => {
                return Err(TempStorageCredsError::MissingEnvVar(String::from_str("R2_TEMP_BUCKET")))
            },
        };
        Ok(Self { access_key, secret_access_key, endpoint, bucket })
    }

    /// Converts the temporary storage credentials to [`StorageCredentials`].
    pub fn as_creds(&self) -> (r: StorageCredentials)
        ensures
            r matches StorageCredentials::R2(
                R2StorageCredentials::Default { access_key, secret_access_key, endpoint, bucket },
            ) && access_key@ == self.access_key() && secret_access_key@ == self.secret_access_key()
                && endpoint@ == self.endpoint() && bucket@ == self.bucket(),
    {
        StorageCredentials::R2(
            R2StorageCredentials::Default {
                access_key: self.access_key.clone(),
                secret_access_key: self.secret_access_key.clone(),
                endpoint: self.endpoint.clone(),
                bucket: self.bucket.clone(),
            },
        )
    }
}

// ---------------------------------------------------------------------------
// Local storage

/// The bytes of a list of path components.
pub open spec fn component_bytes(c: Seq<Vec<u8>>) -> Seq<Seq<u8>> {
    c.map_values(|b: Vec<u8>| b@)
}

/// Whether a path (as components) lies under a root (as components): the
/// component-wise prefix test of `Path::starts_with`.
pub open spec fn path_within(root: Seq<Seq<u8>>, path: Seq<Seq<u8>>) -> bool {
    root.len() <= path.len() && path.take(root.len() as int) == root
}

/// Whether two byte strings are equal.
fn bytes_equal(a: &Vec<u8>, b: &Vec<u8>) -> (r: bool)
    ensures
        r == (a@ == b@),
{
    let n = a.len();
    if n != b.len() {
        return false;
    }
    let mut i: usize = 0;
    while i < n
        invariant
            n == a@.len(),
            n == b@.len(),
            i <= n,
            a@.take(i as int) == b@.take(i as int),
        decreases n - i,
    {
        if a[i] != b[i] {
            assert(a@.take(i as int + 1)[i as int] != b@.take(i as int + 1)[i as int]);
            return false;
        }
        assert(a@.take(i + 1) =~= a@.take(i as int).push(a@[i as int]));
        assert(b@.take(i + 1) =~= b@.take(i as int).push(b@[i as int]));
        i += 1;
    }
    assert(a@.take(n as int) =~= a@);
    assert(b@.take(n as int) =~= b@);
    true
}

/// A storage client on a local directory. Paths are handled as their
/// components' raw bytes, as the operating system gives them.
#[derive(Debug)]
pub struct LocalStorageClient {
    root: Vec<Vec<u8>>,
}

impl LocalStorageClient {
    /// The components of the root directory.
    pub closed spec fn root(&self) -> Seq<Seq<u8>> {
        component_bytes(self.root@)
    }

    /// A client on a directory, given as the components of its canonical
    /// path.
    pub fn new(root: Vec<Vec<u8>>) -> (r: Self)
        ensures
            r.root() == component_bytes(root@),
    {
        Self { root }
    }

    /// Whether a canonical path lies within the client's root.
    pub fn contains_path(&self, path: &Vec<Vec<u8>>) -> (r: bool)
        ensures
            r == path_within(self.root(), component_bytes(path@)),
    {
        let n = self.root.len();
        if n > path.len() {
            return false;
        }
        let mut i: usize = 0;
        while i < n
            invariant
                n == self.root@.len(),
                n <= path@.len(),
                i <= n,
                forall|j: int| 0 <= j < i ==> self.root@[j]@ == path@[j]@,
            decreases n - i,
        {
            if !bytes_equal(&self.root[i], &path[i]) {
                proof {
                    assert(component_bytes(path@).take(n as int)[i as int] != self.root()[i as int]);
                }
                return false;
            }
            i += 1;
        }
        assert(component_bytes(path@).take(n as int) =~= self.root());
        true
    }

    /// Decides a read of `input_path` (its raw bytes): `exists` tells
    /// whether the joined path exists, and `canonical` holds its canonical
    /// components, or `None` where canonicalising failed. The result is the
    /// path to open, or the error to report: `NotFound` with the path, or
    /// `InvalidPath` with its lossy text.
    pub fn resolve_read(&self, input_path: Vec<u8>, exists: bool, canonical: Option<Vec<Vec<u8>>>) -> (r:
        Result<Vec<Vec<u8>>, ReadError>)
        ensures
            !exists ==> (r matches Err(ReadError::NotFound(p)) && p@ == input_path@),
            exists && canonical is None ==> (r matches Err(ReadError::InvalidPath(p)) && p@
                == utf8_lossy_text(input_path@)),
            exists && canonical is Some ==> match r {
                Ok(p) => p@ == canonical->0@ && path_within(self.root(), component_bytes(p@)),
                Err(e) => e matches ReadError::InvalidPath(p) && p@ == utf8_lossy_text(input_path@)
                    && !path_within(self.root(), component_bytes(canonical->0@)),
            },
    {
        if !exists {
            return Err(ReadError::NotFound(input_path));
        }
        let path = match canonical {
            Some(p) => p,
            None => return Err(ReadError::InvalidPath(lossy_text(input_path.as_slice()))),
        };
        if !self.contains_path(&path) {
            return Err(ReadError::InvalidPath(lossy_text(input_path.as_slice())));
        }
        Ok(path)
    }
}

// ---------------------------------------------------------------------------
// Object storage paths

/// The text without one leading `/`, where it has one.
pub open spec fn strip_leading_slash(s: Seq<char>) -> Seq<char> {
    if s.len() > 0 && s[0] == '/' {
        s.drop_first()
    } else {
        s
    }
}

/// The text without one trailing `/`, where it has one.
pub open spec fn strip_trailing_slash(s: Seq<char>) -> Seq<char> {
    if s.len() > 0 && s.last() == '/' {
        s.drop_last()
    } else {
        s
    }
}

/// The text of the object path that a string parses to: the string without
/// one leading and one trailing delimiter.
pub open spec fn object_path_text(s: Seq<char>) -> Seq<char> {
    strip_trailing_slash(strip_leading_slash(s))
}

/// An ASCII control character (`char::is_ascii_control`).
pub open spec fn is_ascii_control(c: char) -> bool {
    (c as u32) < 32 || (c as u32) == 127
}

/// A valid part of an object path: not empty, not `.` or `..`, and free of
/// ASCII control characters and of the delimiter.
pub open spec fn valid_path_part(p: Seq<char>) -> bool {
    &&& p.len() > 0
    &&& p != seq!['.']
    &&& p != seq!['.', '.']
    &&& forall|i: int| 0 <= i < p.len() ==> !is_ascii_control(#[trigger] p[i]) && p[i] != '/'
}

/// Whether a string parses as an object path: it is empty or `/`, or each
/// of its `/`-separated parts (after one leading and one trailing `/` are
/// taken off) is valid.
pub open spec fn valid_object_path(s: Seq<char>) -> bool {
    strip_leading_slash(s).len() == 0 || forall|i: int|
        0 <= i < split_text(object_path_text(s), '/').len() ==> valid_path_part(
            #[trigger] split_text(object_path_text(s), '/')[i],
        )
}

/// `object_store::path::Path::parse`, with the parsed path handed back as
/// its text (`<Path as AsRef<str>>::as_ref`). The claim: parsing succeeds
/// exactly on the strings `valid_object_path` accepts, and the path's text
/// is the input without one leading and one trailing `/`.
#[verifier::external_body]
fn parse_object_path(s: &str) -> (r: Option<String>)
    ensures
        r is Some <==> valid_object_path(s@),
        r matches Some(t) ==> t@ == object_path_text(s@),
{
    object_store::path::Path::parse(s).ok().map(|p| p.as_ref().to_string())
}

/// The size of the parts of a multipart upload to object storage: 10 MiB.
pub const MULTIPART_CHUNK_SIZE: usize = 10485760;

/// The object path that a read of `input_path` goes to, or `InvalidPath`
/// with the input where it is not a valid object path.
pub fn object_path_for_read(input_path: String) -> (r: Result<String, ReadError>)
    ensures
        r is Ok <==> valid_object_path(input_path@),
        r matches Ok(t) ==> t@ == object_path_text(input_path@),
        r matches Err(e) ==> e matches ReadError::InvalidPath(p) && p@ == input_path@,
{
    match parse_object_path(input_path.as_str()) {
        Some(t) => Ok(t),
        None => Err(ReadError::InvalidPath(input_path)),
    }
}

/// The object path that a write to `input_path` goes to, or `InvalidPath`
/// with the input where it is not a valid object path.
pub fn object_path_for_write(input_path: String) -> (r: Result<String, WriteError>)
    ensures
        r is Ok <==> valid_object_path(input_path@),
        r matches Ok(t) ==> t@ == object_path_text(input_path@),
        r matches Err(e) ==> e matches WriteError::InvalidPath(p) && p@ == input_path@,
{
    match parse_object_path(input_path.as_str()) {
        Some(t) => Ok(t),
        None => Err(WriteError::InvalidPath(input_path)),
    }
}

} // verus!

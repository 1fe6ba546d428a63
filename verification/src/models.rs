//! Domain model types: record IDs, permissions, tokens and compression.
//!
//! Record IDs are ULIDs, held here as their 128-bit value.

use vstd::prelude::*;
use vstd::string::*;

use crate::slug::StrictSlug;

verus! {

broadcast use vstd::string::group_string_axioms;

/// A token record ID.
pub type TokenRecordId = u128;

/// A user record ID.
pub type UserRecordId = u128;

/// An org record ID.
pub type OrgRecordId = u128;

/// `ulid::Ulid::new`: a fresh ULID from the current time and randomness,
/// as its 128-bit value. Nothing is stated about its value.
#[verifier::external_body]
pub(crate) fn fresh_ulid() -> u128 {
    ulid::Ulid::new().0
}

/// The declaration of `ulid::DecodeError`, the error of parsing a ULID.
#[verifier::external_type_specification]
#[verifier::external_body]
pub struct ExUlidDecodeError(ulid::DecodeError);

/// The Crockford base32 digits that ULIDs are written in.
pub open spec fn ulid_alphabet() -> Seq<char> {
    seq![
        '0', '1', '2', '3', '4', '5', '6', '7', '8', '9', 'A', 'B', 'C', 'D', 'E', 'F', 'G', 'H',
        'J', 'K', 'M', 'N', 'P', 'Q', 'R', 'S', 'T', 'V', 'W', 'X', 'Y', 'Z',
    ]
}

/// The value of one ULID digit: its place in the alphabet, letters read in
/// either case, or `None` for any other character.
pub open spec fn ulid_digit(c: char) -> Option<int> {
    let upper = if 'a' <= c && c <= 'z' {
        ((c as u32) - 32) as char
    } else {
        c
    };
    if exists|i: int| 0 <= i < 32 && ulid_alphabet()[i] == upper {
        Some(choose|i: int| 0 <= i < 32 && ulid_alphabet()[i] == upper)
    } else {
        None
    }
}

/// The number that a string of ULID digits spells, most significant first.
pub open spec fn ulid_digits_value(t: Seq<char>) -> int
    decreases t.len(),
{
    if t.len() == 0 {
        0
    } else {
        ulid_digits_value(t.drop_last()) * 32 + ulid_digit(t.last()).unwrap_or(0)
    }
}

/// The 128-bit value of the ULID that a text spells: 26 digits, taken
/// modulo 2^128; `None` where the text is not 26 ULID digits.
pub open spec fn ulid_value(text: Seq<char>) -> Option<u128> {
    if text.len() == 26 && forall|i: int| 0 <= i < 26 ==> (#[trigger] ulid_digit(text[i])) is Some {
        Some((ulid_digits_value(text) % (u128::MAX as int + 1)) as u128)
    } else {
        None
    }
}

/// `ulid::Ulid::from_string` (which `FromStr` calls), as the ULID's value:
/// it succeeds exactly on 26 Crockford base32 digits (letters in either
/// case) and folds them five bits at a time into a `u128`.
#[verifier::external_body]
fn parse_ulid(text: &str) -> (r: Result<u128, ulid::DecodeError>)
    ensures
        r is Ok <==> ulid_value(text@) is Some,
        r matches Ok(v) ==> ulid_value(text@) == Some(v),
{
    ulid::Ulid::from_string(text).map(|u| u.0)
}

/// Parses a record ID from its text form (`FromStr` and `TryFrom<String>`
/// of record IDs).
pub fn record_id_from_str(s: &str) -> (r: Result<u128, ulid::DecodeError>)
    ensures
        r is Ok <==> ulid_value(s@) is Some,
        r matches Ok(v) ==> ulid_value(s@) == Some(v),
{
    parse_ulid(s)
}

/// A [`Store`](crate::models) record ID.
#[derive(Clone, Copy, Debug, PartialEq, Eq, Structural)]
pub struct StoreRecordId(pub u128);

/// A cache record ID.
#[derive(Clone, Copy, Debug, PartialEq, Eq, Structural)]
pub struct CacheRecordId(pub u128);

/// The types of permissions that can be granted to a `User` for a `Store`.
#[derive(Clone, Copy, Debug, PartialEq, Eq, Structural)]
pub enum CachePermissionType {
    /// The user has read access.
    Read,
    /// The user has write access.
    Write,
}

/// The display name of a permission type.
pub open spec fn permission_type_text(p: CachePermissionType) -> Seq<char> {
    match p {
        CachePermissionType::Read => "read"@,
        CachePermissionType::Write => "write"@,
    }
}

impl CachePermissionType {
    /// The permission type's display name.
    pub fn to_string(&self) -> (r: String)
        ensures
            r@ == permission_type_text(*self),
    {
        match self {
            CachePermissionType::Read => String::from_str("read"),
            CachePermissionType::Write => String::from_str("write"),
        }
    }
}

/// A permission.
#[derive(Clone, Copy, Debug, PartialEq, Eq, Structural)]
pub enum Permission {
    /// A store permission.
    CachePermission {
        /// The store that the permission is for.
        store_id: StoreRecordId,
        /// The store permission type.
        permission: CachePermissionType,
    },
}

/// A permission set for a `Store`.
#[derive(Debug)]
pub struct PermissionSet {
    perms: Vec<Permission>,
}

impl View for PermissionSet {
    type V = Set<Permission>;

    closed spec fn view(&self) -> Set<Permission> {
        self.perms@.to_set()
    }
}

impl PermissionSet {
    /// A set holding the given permissions.
    pub fn new(perms: Vec<Permission>) -> (r: PermissionSet)
        ensures
            r@ == perms@.to_set(),
    {
        PermissionSet { perms }
    }

    /// Whether the set holds a permission.
    pub fn contains(&self, p: &Permission) -> (r: bool)
        ensures
            r == self@.contains(*p),
    {
        let n = self.perms.len();
        let mut i: usize = 0;
        while i < n
            invariant
                n == self.perms@.len(),
                i <= n,
                forall|j: int| 0 <= j < i ==> self.perms@[j] != *p,
            decreases n - i,
        {
            if self.perms[i] == *p {
                assert(self.perms@.contains(*p));
                return true;
            }
            i += 1;
        }
        false
    }

    /// Adds a permission.
    pub fn insert(&mut self, p: Permission)
        ensures
            final(self)@ == old(self)@.insert(p),
    {
        self.perms.push(p);
        assert(self.perms@.to_set() =~= old(self).perms@.to_set().insert(p)) by {
            assert(self.perms@ == old(self).perms@.push(p));
            assert forall|x: Permission| self.perms@.contains(x) <==> (old(self).perms@.contains(x)
                || x == p) by {
                if self.perms@.contains(x) {
                    let j = choose|j: int| 0 <= j < self.perms@.len() && self.perms@[j] == x;
                    if j < old(self).perms@.len() {
                        assert(old(self).perms@[j] == x);
                    }
                }
                if old(self).perms@.contains(x) {
                    let j = choose|j: int| 0 <= j < old(self).perms@.len() && old(self).perms@[j]
                        == x;
                    assert(self.perms@[j] == x);
                }
                if x == p {
                    assert(self.perms@[self.perms@.len() - 1] == x);
                }
            }
        }
    }

    /// Whether this set holds every permission of the other.
    pub fn contains_set(&self, other: &PermissionSet) -> (r: bool)
        ensures
            r == other@.subset_of(self@),
    {
        let n = other.perms.len();
        let mut i: usize = 0;
        while i < n
            invariant
                n == other.perms@.len(),
                i <= n,
                forall|j: int| 0 <= j < i ==> self@.contains(#[trigger] other.perms@[j]),
            decreases n - i,
        {
            if !self.contains(&other.perms[i]) {
                assert(other@.contains(other.perms@[i as int]));
                return false;
            }
            i += 1;
        }
        assert forall|x: Permission| other@.contains(x) implies self@.contains(x) by {
            let j = choose|j: int| 0 <= j < other.perms@.len() && other.perms@[j] == x;
            assert(self@.contains(other.perms@[j]));
        }
        true
    }
}

/// A token.
#[derive(Debug)]
pub struct Token {
    /// The token's ID.
    pub id: TokenRecordId,
    /// The token's nickname.
    pub nickname: StrictSlug,
    /// The token's secret.
    pub secret: StrictSlug,
    /// The token's permissions.
    pub perms: PermissionSet,
    /// The token's owner (a User).
    pub owner: UserRecordId,
    /// The token's org.
    pub org: OrgRecordId,
}

impl Token {
    /// Check if the token has the given permissions.
    pub fn authorized(&self, perms: &PermissionSet) -> (r: bool)
        ensures
            r == perms@.subset_of(self.perms@),
    {
        self.perms.contains_set(perms)
    }
}

/// A token create request.
#[derive(Debug)]
pub struct TokenCreateRequest {
    /// The token's nickname.
    pub nickname: StrictSlug,
    /// The token's secret.
    pub secret: StrictSlug,
    /// The token's permissions.
    pub perms: PermissionSet,
    /// The token's owner (a User).
    pub owner: UserRecordId,
    /// The token's org.
    pub org: OrgRecordId,
}

impl TokenCreateRequest {
    /// Turns the request into a token with the given fresh ID.
    pub fn into_token(self, id: TokenRecordId) -> (r: Token)
        ensures
            r.id == id,
            r.nickname@ == self.nickname@,
            r.secret@ == self.secret@,
            r.perms@ == self.perms@,
            r.owner == self.owner,
            r.org == self.org,
    {
        Token {
            id,
            nickname: self.nickname,
            secret: self.secret,
            perms: self.perms,
            owner: self.owner,
            org: self.org,
        }
    }
}

impl Token {
    /// The token that a create request describes, under a fresh ID.
    pub fn from_request(req: TokenCreateRequest) -> (r: Token)
        ensures
            r.nickname@ == req.nickname@,
            r.secret@ == req.secret@,
            r.perms@ == req.perms@,
            r.owner == req.owner,
            r.org == req.org,
    {
        let id = fresh_ulid();
        req.into_token(id)
    }
}

/// A file size in bytes.
#[derive(Clone, Copy, Debug, PartialEq, Eq, Structural)]
pub struct FileSize(pub u64);

impl FileSize {
    /// A file size of the given number of bytes.
    pub fn new(bytes: u64) -> (r: FileSize)
        ensures
            r.bytes() == bytes,
    {
        FileSize(bytes)
    }

    /// The number of bytes.
    pub open spec fn bytes(self) -> u64 {
        self.0
    }

    /// The number of bytes.
    pub fn into_inner(self) -> (r: u64)
        ensures
            r == self.bytes(),
    {
        self.0
    }
}

/// Represents a compression algorithm.
#[derive(Clone, Copy, Debug, PartialEq, Eq, Structural)]
pub enum CompressionAlgorithm {
    /// The snappy compression algorithm.
    Snappy,
}

/// Represents a configuration for compression.
#[derive(Clone, Copy, Debug, PartialEq, Eq, Structural)]
pub struct CompressionConfig {
    algorithm: Option<CompressionAlgorithm>,
}

impl CompressionConfig {
    /// The configured algorithm, if any.
    pub closed spec fn spec_algorithm(self) -> Option<CompressionAlgorithm> {
        self.algorithm
    }

    /// Creates a new compression configuration.
    pub fn new(algorithm: Option<CompressionAlgorithm>) -> (r: Self)
        ensures
            r.spec_algorithm() == algorithm,
    {
        Self { algorithm }
    }

    /// Returns the compression algorithm.
    pub fn algorithm(&self) -> (r: Option<CompressionAlgorithm>)
        ensures
            r == self.spec_algorithm(),
    {
        self.algorithm
    }
}

/// Represents the compression status of a file.
#[derive(Clone, Copy, Debug, PartialEq, Eq, Structural)]
pub enum CompressionStatus {
    /// The file is compressed.
    Compressed {
        /// The compressed size of the file.
        compressed_size: FileSize,
        /// The uncompressed size of the file.
        uncompressed_size: FileSize,
        /// The compression algorithm used to compress the file.
        algorithm: CompressionAlgorithm,
    },
    /// The file is not compressed.
    Uncompressed {
        /// The uncompressed size of the file.
        size: FileSize,
    },
}

/// The compression status recorded for a file written to a store: given the
/// store's algorithm, the size the store reported for what it received, and
/// the number of bytes read from the source.
pub fn written_compression_status(
    algorithm: Option<CompressionAlgorithm>,
    written_size: FileSize,
    uncompressed_bytes: u64,
) -> (r: CompressionStatus)
    ensures
        r == match algorithm {
            Some(a) => CompressionStatus::Compressed {
                compressed_size: written_size,
                uncompressed_size: FileSize(uncompressed_bytes),
                algorithm: a,
            },
            None => CompressionStatus::Uncompressed { size: FileSize(uncompressed_bytes) },
        },
{
    match algorithm {
        Some(algorithm) => CompressionStatus::Compressed {
            compressed_size: written_size,
            uncompressed_size: FileSize::new(uncompressed_bytes),
            algorithm,
        },
        None => CompressionStatus::Uncompressed { size: FileSize::new(uncompressed_bytes) },
    }
}

} // verus!

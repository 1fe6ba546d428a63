//! The decisions of the domain services: token verification, and the store
//! lookups and error mappings around writing an entry.

use vstd::prelude::*;
use vstd::string::*;

use crate::models::{
    ulid_alphabet, CacheRecordId, CompressionConfig, OrgRecordId, StoreRecordId, Token, TokenRecordId,
};
use crate::slug::StrictSlug;
use crate::storage::{ReadError, StorageCredentials, WriteError};

verus! {

broadcast use vstd::string::group_string_axioms;

/// An error reported by the database while fetching a model.
#[derive(Debug)]
pub struct FetchModelError {
    /// What the database reported.
    pub message: String,
}

/// An error reported by the database while fetching a model by an index.
#[derive(Debug)]
pub struct FetchModelByIndexError {
    /// What the database reported.
    pub message: String,
}

/// An error reported by the database while creating a model.
#[derive(Debug)]
pub struct CreateModelError {
    /// What the database reported.
    pub message: String,
}

/// A store.
#[derive(Debug)]
pub struct Store {
    /// The store's ID.
    pub id: StoreRecordId,
    /// The store's nickname.
    pub name: StrictSlug,
    /// The store's credentials.
    pub config: StorageCredentials,
    /// How data written to the store is compressed.
    pub compression_config: CompressionConfig,
    /// Whether the store is public.
    pub public: bool,
    /// The org the store belongs to.
    pub org: OrgRecordId,
}

/// A repository of models of one kind, fetched by record ID.
pub trait ModelRepository {
    /// The model type.
    type Model;

    /// Whether `r` is an answer the repository may give when asked for the
    /// model with ID `id`. Each repository says what its answers are.
    spec fn fetched(&self, id: u128, r: Result<Option<Self::Model>, FetchModelError>) -> bool;

    /// Fetches a model by its ID.
    fn fetch_model_by_id(&self, id: u128) -> (r: Result<Option<Self::Model>, FetchModelError>)
        ensures
            self.fetched(id, r),
    ;
}

/// Descriptor trait for repositories that handle [`Token`]s.
pub trait TokenRepository: ModelRepository<Model = Token> {

}

/// Descriptor trait for repositories that handle [`Store`]s.
pub trait StoreRepository: ModelRepository<Model = Store> {

}

/// The error type for token verification.
#[derive(Debug)]
pub enum TokenVerifyError {
    /// The token ID was not found.
    IdNotFound,
    /// The token secret does not match the expected secret.
    SecretMismatch,
    /// An error occurred while fetching the token.
    FetchError(FetchModelError),
}

/// The outcome of a token verification, given what the repository returned
/// for the token's ID and the secret that was presented.
pub open spec fn token_check(fetched: Result<Option<Token>, FetchModelError>, secret: Seq<char>) -> Result<
    Token,
    TokenVerifyError,
> {
    match fetched {
        Err(e) => Err(TokenVerifyError::FetchError(e)),
        Ok(None) => Err(TokenVerifyError::IdNotFound),
        Ok(Some(t)) => if t.secret@ == secret {
            Ok(t)
        } else {
            Err(TokenVerifyError::SecretMismatch)
        },
    }
}

/// Decides a token verification from what the repository returned for the
/// token's ID and the secret that was presented.
pub fn check_fetched_token(
    fetched: Result<Option<Token>, FetchModelError>,
    secret: &StrictSlug,
) -> (r: Result<Token, TokenVerifyError>)
    ensures
        r == token_check(fetched, secret@),
{
    let token = match fetched {
        Err(e) => return Err(TokenVerifyError::FetchError(e)),
        Ok(None) => return Err(TokenVerifyError::IdNotFound),
        Ok(Some(t)) => t,
    };
    if !token.secret.same_as(secret) {
        return Err(TokenVerifyError::SecretMismatch);
    }
    Ok(token)
}

/// Canonical service for the [`Token`] domain model.
#[derive(Debug)]
pub struct TokenServiceCanonical<R: TokenRepository> {
    token_repo: R,
}

impl<R: TokenRepository> TokenServiceCanonical<R> {
    /// The repository the service reads from.
    pub closed spec fn repo(&self) -> R {
        self.token_repo
    }

    /// Create a new instance of the canonical [`Token`] service.
    pub fn new(token_repo: R) -> (r: Self)
        ensures
            r.repo() == token_repo,
    {
        Self { token_repo }
    }

    /// Fetches a token by its ID: the repository's answer for that ID.
    pub fn fetch(&self, id: TokenRecordId) -> (r: Result<Option<Token>, FetchModelError>)
        ensures
            self.repo().fetched(id, r),
    {
        self.token_repo.fetch_model_by_id(id)
    }

    /// Verifies that the supplied token ID and secret are valid and exist:
    /// the outcome is the check of the repository's answer for that ID
    /// against the secret, so a token is given back only when its secret is
    /// the one supplied.
    pub fn verify_token_id_and_secret(&self, id: TokenRecordId, secret: &StrictSlug) -> (r: Result<
        Token,
        TokenVerifyError,
    >)
        ensures
            exists|f: Result<Option<Token>, FetchModelError>|
                #![trigger self.repo().fetched(id, f)]
                self.repo().fetched(id, f) && r == token_check(f, secret@),
            r matches Ok(t) ==> t.secret@ == secret@,
    {
        let fetched = self.fetch(id);
        let ghost f = fetched;
        let r = check_fetched_token(fetched, secret);
        assert(self.repo().fetched(id, f) && r == token_check(f, secret@));
        r
    }
}

/// The definition for the [`Store`] domain model service.
pub trait StoreService {
    /// Fetches a store by its ID.
    fn fetch(&self, id: StoreRecordId) -> Result<Option<Store>, FetchModelError>;
}

/// Canonical service for the [`Store`] domain model.
#[derive(Debug)]
pub struct StoreServiceCanonical<R: StoreRepository> {
    store_repo: R,
}

impl<R: StoreRepository> StoreServiceCanonical<R> {
    /// The repository the service reads from.
    pub closed spec fn repo(&self) -> R {
        self.store_repo
    }

    /// Create a new instance of the canonical [`Store`] service.
    pub fn new(store_repo: R) -> (r: Self)
        ensures
            r.repo() == store_repo,
    {
        Self { store_repo }
    }
}

impl<R: StoreRepository> StoreService for StoreServiceCanonical<R> {
    /// Fetches a store by its ID: the repository's answer for that ID.
    fn fetch(&self, id: StoreRecordId) -> (r: Result<Option<Store>, FetchModelError>)
        ensures
            self.repo().fetched(id.0, r),
    {
        self.store_repo.fetch_model_by_id(id.0)
    }
}

/// The error type for writing to a store.
#[derive(Debug)]
pub enum WriteToStoreError {
    /// The store was not found.
    StoreNotFound(StoreRecordId),
    /// An error occurred while fetching the store.
    FetchError(FetchModelError),
    /// An error occurred while connecting to user storage.
    StorageConnectionError(String),
    /// An error occurred while writing to the store.
    StorageWriteError(WriteError),
}

/// Decides the store to write to from what the repository returned for its ID.
pub fn store_for_write(store_id: StoreRecordId, fetched: Result<Option<Store>, FetchModelError>) -> (r:
    Result<Store, WriteToStoreError>)
    ensures
        match fetched {
            Err(e) => r matches Err(WriteToStoreError::FetchError(e2)) && e2 == e,
            Ok(None) => r matches Err(WriteToStoreError::StoreNotFound(id)) && id == store_id,
            Ok(Some(s)) => r matches Ok(s2) && s2 == s,
        },
{
    match fetched {
        Err(e) => Err(WriteToStoreError::FetchError(e)),
        Ok(None) => Err(WriteToStoreError::StoreNotFound(store_id)),
        Ok(Some(s)) => Ok(s),
    }
}

/// The error type for reading from a store.
#[derive(Debug)]
pub enum ReadFromStoreError {
    /// The store was not found.
    StoreNotFound(StoreRecordId),
    /// An error occurred while fetching the store.
    FetchError(FetchModelError),
    /// An error occurred while connecting to user storage.
    StorageConnectionError(String),
    /// An error occurred while reading from the store.
    StorageReadError(ReadError),
}

/// Decides the store to read from from what the repository returned for its
/// ID.
pub fn store_for_read(store_id: StoreRecordId, fetched: Result<Option<Store>, FetchModelError>) -> (r:
    Result<Store, ReadFromStoreError>)
    ensures
        match fetched {
            Err(e) => r matches Err(ReadFromStoreError::FetchError(e2)) && e2 == e,
            Ok(None) => r matches Err(ReadFromStoreError::StoreNotFound(id)) && id == store_id,
            Ok(Some(s)) => r matches Ok(s2) && s2 == s,
        },
{
    match fetched {
        Err(e) => Err(ReadFromStoreError::FetchError(e)),
        Ok(None) => Err(ReadFromStoreError::StoreNotFound(store_id)),
        Ok(Some(s)) => Ok(s),
    }
}

/// The last `n` base32 digits of `v`, most significant first.
pub open spec fn base32_digits(v: nat, n: nat) -> Seq<char>
    decreases n,
{
    if n == 0 {
        Seq::empty()
    } else {
        base32_digits(v / 32, (n - 1) as nat).push(ulid_alphabet()[(v % 32) as int])
    }
}

/// The text form of a ULID: the 26 base32 digits of its value.
pub open spec fn ulid_text(id: u128) -> Seq<char> {
    base32_digits(id as nat, 26)
}

/// `ulid::Ulid::to_string` (`base32::encode`): the 26 Crockford base32
/// digits of the ULID's value, most significant first.
#[verifier::external_body]
fn ulid_to_string(id: u128) -> (r: String)
    ensures
        r@ == ulid_text(id),
{
    ulid::Ulid(id).to_string()
}

/// The error type for creating an entry.
#[derive(Debug)]
pub enum CreateEntryError {
    /// A matching entry already exists.
    EntryAlreadyExists,
    /// The cache was not found.
    CacheNotFound(CacheRecordId),
    /// Failed to create the entry.
    CreateError(CreateModelError),
    /// An error occurred while connecting to user storage.
    StorageConnectionError(String),
    /// An error occurred while writing to the store.
    StorageWriteError(WriteError),
    /// An error occurred while fetching a model.
    FetchModelError(FetchModelError),
    /// An error occurred while fetching a model by index.
    FetchModelByIndexError(FetchModelByIndexError),
    /// An error occurred due to data integrity failure.
    DataIntegrityError(String),
}

/// The message of the integrity error for a store that should exist.
pub open spec fn missing_store_message(id: u128) -> Seq<char> {
    "store "@ + ulid_text(id) + " not found, but should exist"@
}

impl CreateEntryError {
    /// Maps a failure to write to the entry's store to an entry-creation
    /// error. A missing store is an integrity failure here: the entry's
    /// cache refers to it.
    pub fn from_write_error(value: WriteToStoreError) -> (r: CreateEntryError)
        ensures
            match value {
                WriteToStoreError::StoreNotFound(id) => r matches CreateEntryError::DataIntegrityError(
                    m,
                ) && m@ == missing_store_message(id.0),
                WriteToStoreError::FetchError(e) => r matches CreateEntryError::FetchModelError(e2)
                    && e2 == e,
                WriteToStoreError::StorageConnectionError(e) => r matches CreateEntryError::StorageConnectionError(
                    e2,
                ) && e2 == e,
                WriteToStoreError::StorageWriteError(e) => r matches CreateEntryError::StorageWriteError(
                    e2,
                ) && e2 == e,
            },
    {
        match value {
            WriteToStoreError::StoreNotFound(id) => {
                let mut m = String::from_str("store ");
                let text = ulid_to_string(id.0);
                m.append(text.as_str());
                m.append(" not found, but should exist");
                CreateEntryError::DataIntegrityError(m)
            },
            WriteToStoreError::FetchError(e) => CreateEntryError::FetchModelError(e),
            WriteToStoreError::StorageConnectionError(e) => CreateEntryError::StorageConnectionError(
                e,
            ),
            WriteToStoreError::StorageWriteError(e) => CreateEntryError::StorageWriteError(e),
        }
    }
}

} // verus!

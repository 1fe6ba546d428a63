use rambit::storage::{object_path_for_read, object_path_for_write, WriteError};
use rambit::api_errors::{CredsFetchingError, MolluskError, NoMatchingStoreError, UnauthenticatedStoreAccessError};
use rambit::models::{
    written_compression_status, CachePermissionType, CompressionAlgorithm, CompressionConfig,
    CompressionStatus, FileSize, Permission, PermissionSet, StoreRecordId, Token,
    TokenCreateRequest,
};
use rambit::services::{
    check_fetched_token, store_for_write, CreateEntryError, FetchModelError, ModelRepository,
    Store, StoreRepository, StoreService, StoreServiceCanonical, TokenRepository,
    TokenServiceCanonical, TokenVerifyError, WriteToStoreError,
};
use rambit::slug::StrictSlug;
use rambit::storage::{
    LocalStorageClient, R2StorageCredentials, ReadError, StorageCredentials, TempStorageCreds,
    TempStorageCredsError,
};
use rambit::tasks::{
    consume_step, status_after_run, task_data_key, task_queue_key, task_status_key, wait_step,
    ConsumeStep, FinishedStatus, Status, WaitStep,
};

fn read_perm(store: u128) -> Permission {
    Permission::CachePermission {
        store_id: StoreRecordId(store),
        permission: CachePermissionType::Read,
    }
}

fn write_perm(store: u128) -> Permission {
    Permission::CachePermission {
        store_id: StoreRecordId(store),
        permission: CachePermissionType::Write,
    }
}

fn token(secret: &str, perms: Vec<Permission>) -> Token {
    TokenCreateRequest {
        nickname: StrictSlug::new("tok"),
        secret: StrictSlug::new(secret),
        perms: PermissionSet::new(perms),
        owner: 7,
        org: 9,
    }
    .into_token(42)
}

#[test]
fn permission_type_display() {
    assert_eq!(CachePermissionType::Read.to_string(), "read");
    assert_eq!(CachePermissionType::Write.to_string(), "write");
}

#[test]
fn token_authorized_checks_subset() {
    let t = token("s", vec![read_perm(1), write_perm(1)]);
    assert!(t.authorized(&PermissionSet::new(vec![read_perm(1)])));
    assert!(t.authorized(&PermissionSet::new(vec![])));
    assert!(!t.authorized(&PermissionSet::new(vec![read_perm(2)])));
    assert!(!t.authorized(&PermissionSet::new(vec![read_perm(1), read_perm(3)])));
}

#[test]
fn permission_set_insert_and_contains() {
    let mut set = PermissionSet::new(vec![]);
    assert!(!set.contains(&read_perm(5)));
    set.insert(read_perm(5));
    assert!(set.contains(&read_perm(5)));
    assert!(!set.contains(&write_perm(5)));
}

#[test]
fn compression_config_round_trips_algorithm() {
    assert_eq!(CompressionConfig::new(Some(CompressionAlgorithm::Snappy)).algorithm(), Some(CompressionAlgorithm::Snappy));
    assert_eq!(CompressionConfig::new(None).algorithm(), None);
}

#[test]
fn written_status_follows_algorithm() {
    let s = written_compression_status(Some(CompressionAlgorithm::Snappy), FileSize::new(10), 30);
    assert!(s == CompressionStatus::Compressed {
        compressed_size: FileSize::new(10),
        uncompressed_size: FileSize::new(30),
        algorithm: CompressionAlgorithm::Snappy,
    });
    let s = written_compression_status(None, FileSize::new(30), 30);
    assert!(s == CompressionStatus::Uncompressed { size: FileSize::new(30) });
    assert_eq!(FileSize::new(5).into_inner(), 5);
}

#[test]
fn token_verification_outcomes() {
    let secret = StrictSlug::new("secret");
    match check_fetched_token(Ok(Some(token("secret", vec![]))), &secret) {
        Ok(t) => assert_eq!(t.id, 42),
        _ => panic!("expected the token"),
    }
    assert!(matches!(
        check_fetched_token(Ok(Some(token("other", vec![]))), &secret),
        Err(TokenVerifyError::SecretMismatch)
    ));
    assert!(matches!(check_fetched_token(Ok(None), &secret), Err(TokenVerifyError::IdNotFound)));
    match check_fetched_token(Err(FetchModelError { message: "down".to_string() }), &secret) {
        Err(TokenVerifyError::FetchError(e)) => assert_eq!(e.message, "down"),
        _ => panic!("expected a fetch error"),
    }
}

struct OneToken;

impl ModelRepository for OneToken {
    type Model = Token;

    fn fetched(&self, id: u128, r: Result<Option<Token>, FetchModelError>) -> bool {
        match r {
            Ok(Some(t)) => id == 42 && t.id == 42 && t.secret.as_str() == "right",
            Ok(None) => id != 42,
            Err(_) => false,
        }
    }

    fn fetch_model_by_id(&self, id: u128) -> Result<Option<Token>, FetchModelError> {
        if id == 42 {
            Ok(Some(token("right", vec![])))
        } else {
            Ok(None)
        }
    }
}

impl TokenRepository for OneToken {}

#[test]
fn token_service_verifies_id_and_secret() {
    assert!(OneToken.fetched(42, OneToken.fetch_model_by_id(42)));
    assert!(OneToken.fetched(7, OneToken.fetch_model_by_id(7)));
    let service = TokenServiceCanonical::new(OneToken);
    assert!(service.verify_token_id_and_secret(42, &StrictSlug::new("right")).is_ok());
    assert!(matches!(
        service.verify_token_id_and_secret(42, &StrictSlug::new("wrong")),
        Err(TokenVerifyError::SecretMismatch)
    ));
    assert!(matches!(
        service.verify_token_id_and_secret(1, &StrictSlug::new("right")),
        Err(TokenVerifyError::IdNotFound)
    ));
}

struct NoStores;

impl ModelRepository for NoStores {
    type Model = Store;

    fn fetched(&self, _id: u128, r: Result<Option<Store>, FetchModelError>) -> bool {
        matches!(r, Ok(None))
    }

    fn fetch_model_by_id(&self, _id: u128) -> Result<Option<Store>, FetchModelError> {
        Ok(None)
    }
}

impl StoreRepository for NoStores {}

#[test]
fn store_service_fetches_through_repository() {
    let service = StoreServiceCanonical::new(NoStores);
    assert!(matches!(service.fetch(StoreRecordId(3)), Ok(None)));
    assert!(matches!(
        store_for_write(StoreRecordId(3), service.fetch(StoreRecordId(3))),
        Err(WriteToStoreError::StoreNotFound(StoreRecordId(3)))
    ));
}

#[test]
fn missing_store_becomes_integrity_error() {
    let e = CreateEntryError::from_write_error(WriteToStoreError::StoreNotFound(StoreRecordId(0)));
    match e {
        CreateEntryError::DataIntegrityError(m) => {
            assert_eq!(m, "store 00000000000000000000000000 not found, but should exist")
        },
        _ => panic!("expected an integrity error"),
    }
    let e = CreateEntryError::from_write_error(WriteToStoreError::StoreNotFound(StoreRecordId(
        1777027686520646174104517696511196507,
    )));
    assert!(matches!(e, CreateEntryError::DataIntegrityError(m)
        if m == "store 01ARZ3NDEKTSV4RRFFQ69G5FAV not found, but should exist"));
    let e = CreateEntryError::from_write_error(WriteToStoreError::StorageConnectionError("x".to_string()));
    assert!(matches!(e, CreateEntryError::StorageConnectionError(m) if m == "x"));
}

#[test]
fn temp_storage_creds_from_env_values() {
    let some = |s: &str| Some(s.to_string());
    let creds = TempStorageCreds::from_env_values(some("ak"), some("sk"), some("ep"), some("bk")).unwrap();
    match creds.as_creds() {
        StorageCredentials::R2(R2StorageCredentials::Default { access_key, secret_access_key, endpoint, bucket }) => {
            assert_eq!((access_key.as_str(), secret_access_key.as_str(), endpoint.as_str(), bucket.as_str()), ("ak", "sk", "ep", "bk"));
        },
        _ => panic!("expected R2 credentials"),
    }
    match TempStorageCreds::from_env_values(some("ak"), None, None, some("bk")) {
        Err(TempStorageCredsError::MissingEnvVar(v)) => assert_eq!(v, "R2_TEMP_SECRET_ACCESS_KEY"),
        _ => panic!("expected a missing variable"),
    }
    match TempStorageCreds::from_env_values(some("ak"), some("sk"), some("ep"), None) {
        Err(TempStorageCredsError::MissingEnvVar(v)) => assert_eq!(v, "R2_TEMP_BUCKET"),
        _ => panic!("expected a missing variable"),
    }
    let direct = TempStorageCreds::new("a".into(), "b".into(), "c".into(), "d".into());
    assert!(matches!(direct.as_creds(), StorageCredentials::R2(_)));
}

fn comps(p: &[&str]) -> Vec<Vec<u8>> {
    p.iter().map(|s| s.as_bytes().to_vec()).collect()
}

#[test]
fn local_storage_keeps_reads_inside_root() {
    let client = LocalStorageClient::new(comps(&["", "srv", "store"]));
    assert!(matches!(
        client.resolve_read(b"file1".to_vec(), false, None),
        Err(ReadError::NotFound(p)) if p == b"file1"
    ));
    assert!(matches!(
        client.resolve_read(b"file1".to_vec(), true, None),
        Err(ReadError::InvalidPath(_))
    ));
    assert!(matches!(
        client.resolve_read(b"../etc/passwd".to_vec(), true, Some(comps(&["", "srv", "etc", "passwd"]))),
        Err(ReadError::InvalidPath(p)) if p == "../etc/passwd"
    ));
    let ok = client.resolve_read(b"a/b".to_vec(), true, Some(comps(&["", "srv", "store", "a", "b"]))).ok().unwrap();
    assert_eq!(ok, comps(&["", "srv", "store", "a", "b"]));
    assert!(client.contains_path(&comps(&["", "srv", "store"])));
    assert!(!client.contains_path(&comps(&["", "srv", "storage"])));
    assert!(matches!(
        client.resolve_read(vec![b'a', 0xff], false, None),
        Err(ReadError::NotFound(p)) if p == vec![b'a', 0xff]
    ));
    assert!(matches!(
        client.resolve_read(vec![b'a', 0xff], true, None),
        Err(ReadError::InvalidPath(p)) if p == "a\u{fffd}"
    ));
    let raw = LocalStorageClient::new(vec![b"/".to_vec(), vec![0xff, b'x']]);
    assert!(raw.contains_path(&vec![b"/".to_vec(), vec![0xff, b'x'], b"f".to_vec()]));
    assert!(!raw.contains_path(&vec![b"/".to_vec(), "\u{fffd}x".as_bytes().to_vec()]));
}

#[test]
fn api_error_codes_and_descriptions() {
    let e = NoMatchingStoreError::new("my-store".to_string());
    assert_eq!(e.status_code(), 404);
    assert_eq!(e.slug(), "missing-store");
    assert_eq!(e.description(), "The store \"my-store\" does not exist.");
    let e = UnauthenticatedStoreAccessError::new("s".to_string());
    assert_eq!(e.status_code(), 401);
    assert_eq!(e.slug(), "unauthenticated-store-access");
    assert_eq!(e.description(), "The store \"s\" requires authentication.");
    let e = CredsFetchingError::NoMatchingStore("x".to_string());
    assert_eq!((e.status_code(), e.slug()), (404, "missing-store"));
    assert_eq!(e.description(), "The store \"x\" does not exist.");
    let e = CredsFetchingError::StoreInitError("boom".to_string());
    assert_eq!((e.status_code(), e.slug()), (500, "internal-error"));
    assert_eq!(e.description(), "Failed to use store: boom");
    let e = CredsFetchingError::TempStorageCredsError("t".to_string());
    assert_eq!(e.description(), "An internal error occurred: t");
    let e = CredsFetchingError::SurrealDbStoreRetrievalError("d".to_string());
    assert_eq!((e.status_code(), e.description()), (500, "An internal error occurred: d".to_string()));
}

#[test]
fn task_keys() {
    assert_eq!(task_data_key("build", "01ABC"), "task:build:data:01ABC");
    assert_eq!(task_status_key("build", "01ABC"), "task:build:status:01ABC");
    assert_eq!(task_queue_key("build"), "task:build:queue");
}

#[test]
fn task_wait_and_run_decisions() {
    assert!(matches!(wait_step::<u8, u8>(None), WaitStep::Done(None)));
    assert!(matches!(wait_step::<u8, u8>(Some(Status::Pending)), WaitStep::Poll));
    assert!(matches!(
        wait_step::<u8, u8>(Some(Status::InProgress { worker_name: "w".into() })),
        WaitStep::Poll
    ));
    assert!(matches!(wait_step::<u8, u8>(Some(Status::Completed(3))), WaitStep::Done(Some(FinishedStatus::Completed(3)))));
    assert!(matches!(wait_step::<u8, u8>(Some(Status::Failed(4))), WaitStep::Done(Some(FinishedStatus::Failed(4)))));
    assert!(matches!(wait_step::<u8, u8>(Some(Status::Panicked)), WaitStep::Done(Some(FinishedStatus::Panicked))));
    assert!(matches!(status_after_run::<u8, u8>(Some(Ok(1))), Status::Completed(1)));
    assert!(matches!(status_after_run::<u8, u8>(Some(Err(2))), Status::Failed(2)));
    assert!(matches!(status_after_run::<u8, u8>(None), Status::Panicked));
    assert!(matches!(
        consume_step(Ok(Some("00000000000000000000000005".to_string()))),
        ConsumeStep::Run(5)
    ));
    assert!(matches!(consume_step(Ok(Some("not-a-ulid".to_string()))), ConsumeStep::SkipBadId));
    assert!(matches!(consume_step(Ok(None)), ConsumeStep::Idle));
    assert!(matches!(consume_step(Err(())), ConsumeStep::Retry));
}

#[test]
fn counted_reader_adds_filled_bytes_to_the_counter() {
    let mut count: u64 = 4;
    {
        let mut reader = rambit::counted::CountedAsyncReader::new(vec![1u8, 2, 3], &mut count);
        reader.record_filled(3);
        reader.reader_mut().push(4);
        reader.record_filled(1);
        assert_eq!(reader.reader, vec![1u8, 2, 3, 4]);
        assert_eq!(*reader.counter, 8);
    }
    assert_eq!(count, 8);
}

#[test]
fn object_paths_are_normalised_or_refused() {
    assert_eq!(object_path_for_read("/a/b/".to_string()).unwrap(), "a/b");
    assert_eq!(object_path_for_read("a/b".to_string()).unwrap(), "a/b");
    assert_eq!(object_path_for_read("".to_string()).unwrap(), "");
    assert_eq!(object_path_for_read("/".to_string()).unwrap(), "");
    assert_eq!(object_path_for_write("dir\\file".to_string()).unwrap(), "dir\\file");
    for bad in ["a//b", "a/../b", "./a", "//", "a\u{7}b", "a\u{7f}"] {
        match object_path_for_read(bad.to_string()) {
            Err(ReadError::InvalidPath(p)) => assert_eq!(p, bad),
            other => panic!("{bad:?} gave {other:?}"),
        }
        match object_path_for_write(bad.to_string()) {
            Err(WriteError::InvalidPath(p)) => assert_eq!(p, bad),
            other => panic!("{bad:?} gave {other:?}"),
        }
    }
    assert_eq!(rambit::storage::MULTIPART_CHUNK_SIZE, 10 * 1024 * 1024);
}

#[test]
fn token_from_request_keeps_fields_under_fresh_ids() {
    let request = || TokenCreateRequest {
        nickname: StrictSlug::new("Deploy Key"),
        secret: StrictSlug::new("s3cret"),
        perms: PermissionSet::new(vec![read_perm(5)]),
        owner: 11,
        org: 12,
    };
    let a = Token::from_request(request());
    let b = Token::from_request(request());
    assert_eq!(a.nickname.as_str(), "deploy-key");
    assert_eq!(a.secret.as_str(), "s3cret");
    assert!(a.perms.contains(&read_perm(5)));
    assert!(!a.perms.contains(&write_perm(5)));
    assert_eq!((a.owner, a.org), (11, 12));
    assert_ne!(a.id, b.id);
}

#[test]
fn record_ids_parse_from_ulid_text() {
    use_record_id_from_str("01ARZ3NDEKTSV4RRFFQ69G5FAV", Some(1777027686520646174104517696511196507));
    use_record_id_from_str("01arz3ndektsv4rrffq69g5fav", Some(1777027686520646174104517696511196507));
    use_record_id_from_str("7ZZZZZZZZZZZZZZZZZZZZZZZZZ", Some(u128::MAX));
    use_record_id_from_str("01ARZ3NDEKTSV4RRFFQ69G5FA", None);
    use_record_id_from_str("01ARZ3NDEKTSV4RRFFQ69G5FAU", None);
    use_record_id_from_str("", None);
}

fn use_record_id_from_str(text: &str, expected: Option<u128>) {
    assert_eq!(rambit::models::record_id_from_str(text).ok(), expected);
}

#[test]
fn tikv_endpoints_split_on_commas() {
    use_endpoints("a:1,b:2", &["a:1", "b:2"]);
    use_endpoints("", &[""]);
    use_endpoints("x,,y,", &["x", "", "y", ""]);
}

fn use_endpoints(urls: &str, expected: &[&str]) {
    assert_eq!(rambit::kv::tikv_endpoints(urls), expected.iter().map(|s| s.to_string()).collect::<Vec<_>>());
}

#[test]
fn task_lifecycle_as_seen_by_a_waiter() {
    assert!(matches!(wait_step::<u8, u8>(Some(Status::Pending)), WaitStep::Poll));
    assert!(matches!(
        wait_step::<u8, u8>(Some(Status::InProgress { worker_name: "w".to_string() })),
        WaitStep::Poll
    ));
    assert!(matches!(
        wait_step(Some(status_after_run::<u8, u8>(Some(Ok(3))))),
        WaitStep::Done(Some(FinishedStatus::Completed(3)))
    ));
    assert!(matches!(
        wait_step(Some(status_after_run::<u8, u8>(None))),
        WaitStep::Done(Some(FinishedStatus::Panicked))
    ));
}

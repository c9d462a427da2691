use imag::codec::{header_delete, header_insert, header_read, QueryError};
use imag::entry::Entry;
use imag::error::StoreError;
use imag::file_abstraction::InMemoryFileAbstraction;
use imag::generators::{Sha1, Sha224, Sha256, Sha3, Sha384, Sha512};
use imag::hasher::{Hasher, Sha1Hasher};
use imag::reference::{
    get_file_path, make_header_section, referenced_file, Config, Ref, RefError,
};
use imag::refstore::{ref_id, RefStore, RefStoreError, UniqueRefPathGenerator};
use imag::store::{LocationState, Store};
use imag::storeid::StoreId;
use imag::strmap::StringMap;
use imag::value::HeaderValue;

fn get_store() -> Store<InMemoryFileAbstraction> {
    let backend = InMemoryFileAbstraction::new();
    Store::new_with_backend(String::from("/"), LocationState::Directory, &None, backend).unwrap()
}

fn id(s: &str) -> StoreId {
    StoreId::new(String::from(s)).unwrap()
}

fn table(entries: Vec<(&str, HeaderValue)>) -> HeaderValue {
    HeaderValue::Table(entries.into_iter().map(|(k, v)| (String::from(k), v)).collect())
}

fn text(s: &str) -> HeaderValue {
    HeaderValue::String(String::from(s))
}

fn some_config() -> Config {
    let mut c = StringMap::new();
    c.insert(String::from("some_collection"), String::from("/tmp"));
    Config::new(c)
}

struct TestHasher;

impl Hasher for TestHasher {
    fn name() -> &'static str {
        "Testhasher"
    }

    fn hash(content: &str) -> Option<String> {
        Some(String::from(content))
    }
}

#[test]
fn test_isref() {
    let mut store = get_store();
    let entry = store.retrieve(id("test_isref")).unwrap();

    assert!(!entry.entry().is_ref().unwrap());
}

#[test]
fn test_makeref() {
    let mut store = get_store();
    let mut entry = store.retrieve(id("test_makeref")).unwrap();
    let file = "/tmp/foo";
    let collection_name = "some_collection";
    let config = some_config();

    assert!(entry.entry_mut().make_ref::<TestHasher>(file, collection_name, &config, Some("/tmp/foo"), false).is_ok());
}

#[test]
fn test_makeref_isref() {
    let mut store = get_store();
    let mut entry = store.retrieve(id("test_makeref_isref")).unwrap();
    let file = "/tmp/foo";
    let collection_name = "some_collection";
    let config = some_config();

    assert!(entry.entry_mut().make_ref::<TestHasher>(file, collection_name, &config, Some("/tmp/foo"), false).is_ok());
    assert!(entry.entry().is_ref().unwrap());
}

#[test]
fn test_makeref_remref() {
    let mut store = get_store();
    let mut entry = store.retrieve(id("test_makeref_remref")).unwrap();
    let file = "/tmp/foo";
    let collection_name = "some_collection";
    let config = some_config();

    assert!(entry.entry_mut().make_ref::<TestHasher>(file, collection_name, &config, Some("/tmp/foo"), false).is_ok());
    assert!(entry.entry().is_ref().unwrap());
    assert!(entry.entry_mut().remove_ref().is_ok());
    assert!(!entry.entry().is_ref().unwrap());
}

#[test]
fn make_ref_writes_the_section() {
    let mut entry = Entry::new(id("r"));
    let config = some_config();
    assert_eq!(
        entry.make_ref::<TestHasher>("foo", "some_collection", &config, Some("content"), false),
        Ok(())
    );
    assert_eq!(
        entry.get_header(),
        &table(vec![
            ("imag", table(vec![("version", text("0.10.0"))])),
            (
                "ref",
                table(vec![
                    ("collection", text("some_collection")),
                    ("hash", table(vec![("Testhasher", text("content"))])),
                    ("is_ref", HeaderValue::Boolean(true)),
                    ("relpath", text("foo")),
                ])
            ),
        ])
    );
    assert_eq!(entry.get_path(), Ok(String::from("foo")));
    assert_eq!(entry.get_hash::<TestHasher>(), Ok(String::from("content")));
    assert_eq!(entry.get_hash::<Sha1Hasher>(), Err(RefError::HeaderFieldMissing));
    assert_eq!(referenced_file(&entry, &config), Ok(String::from("/tmp/foo")));
    assert_eq!(entry.hash_valid::<TestHasher>(&config, "content"), Ok(true));
    assert_eq!(entry.hash_valid::<TestHasher>(&config, "changed"), Ok(false));
    let empty = Config::new(StringMap::new());
    assert_eq!(
        entry.hash_valid::<TestHasher>(&empty, "content"),
        Err(RefError::CollectionNotConfigured)
    );
}

#[test]
fn make_ref_fails_in_turn() {
    let config = some_config();
    let mut entry = Entry::new(id("r"));
    let fresh = entry.clone();
    assert_eq!(
        entry.make_ref::<TestHasher>("foo", "other", &config, Some("c"), false),
        Err(RefError::CollectionNotConfigured)
    );
    assert_eq!(
        entry.make_ref::<TestHasher>("foo", "some_collection", &config, None, false),
        Err(RefError::FileMissing)
    );
    assert_eq!(
        entry.make_ref::<Sha1Hasher>("foo", "some_collection", &config, Some("c"), false),
        Err(RefError::HashFailed)
    );
    assert_eq!(entry, fresh);
    assert_eq!(entry.make_ref::<TestHasher>("foo", "some_collection", &config, Some("c"), false), Ok(()));
    let made = entry.clone();
    assert_eq!(
        entry.make_ref::<TestHasher>("bar", "some_collection", &config, Some("d"), false),
        Err(RefError::AlreadyARef)
    );
    assert_eq!(entry, made);
    assert_eq!(entry.make_ref::<TestHasher>("bar", "some_collection", &config, Some("d"), true), Ok(()));
    assert_eq!(entry.get_path(), Ok(String::from("bar")));
    let mut broken = Entry::new(id("b"));
    broken.set_header(text("no table"));
    assert_eq!(
        broken.make_ref::<TestHasher>("foo", "some_collection", &config, Some("c"), true),
        Err(RefError::HeaderAccessFailed)
    );
    broken.set_header(table(vec![("ref", table(vec![("is_ref", text("yes"))]))]));
    assert_eq!(broken.is_ref(), Err(RefError::HeaderTypeError));
    assert_eq!(broken.get_path(), Err(RefError::HeaderFieldMissing));
}

#[test]
fn header_section_and_file_path() {
    assert_eq!(
        make_header_section(String::from("abc"), "sha1", "dir/file", "music"),
        Ok(table(vec![
            ("collection", text("music")),
            ("hash", table(vec![("sha1", text("abc"))])),
            ("relpath", text("dir/file")),
        ]))
    );
    let config = some_config();
    assert_eq!(get_file_path(&config, "some_collection", "a/b"), Ok(String::from("/tmp/a/b")));
    assert_eq!(get_file_path(&config, "nope", "a/b"), Err(RefError::CollectionNotConfigured));
    assert_eq!(config.get("some_collection"), Some(&String::from("/tmp")));
}

#[test]
fn headers_are_read_and_changed_by_path() {
    let mut header = table(vec![
        ("a", table(vec![("b", table(vec![("c", HeaderValue::Integer(7))]))])),
        ("list", HeaderValue::Array(vec![HeaderValue::Integer(1)])),
    ]);
    assert_eq!(header_read(&header, "a.b.c"), Ok(Some(HeaderValue::Integer(7))));
    assert_eq!(header_read(&header, "a.x"), Ok(None));
    assert_eq!(header_read(&header, "a.b.c.d"), Err(QueryError::Failed));
    assert_eq!(header_read(&header, ""), Err(QueryError::Failed));
    assert_eq!(header_read(&header, "a..b"), Err(QueryError::Failed));
    assert_eq!(header_read(&header, "list.[0]"), Err(QueryError::UnsupportedPath));
    assert_eq!(header_insert(&mut header, "a.n", &text("new")), Ok(None));
    assert_eq!(header_insert(&mut header, "a.n", &text("newer")), Ok(Some(text("new"))));
    assert_eq!(header_insert(&mut header, "x.y", &HeaderValue::Boolean(true)), Ok(None));
    assert_eq!(header_read(&header, "x"), Ok(Some(table(vec![("y", HeaderValue::Boolean(true))]))));
    let before = header.clone();
    assert_eq!(header_insert(&mut header, "a.b.c", &text("deep")), Err(QueryError::UnsupportedPath));
    assert_eq!(header_insert(&mut header, "list.[1]", &text("i")), Err(QueryError::UnsupportedPath));
    assert_eq!(header, before);
    assert_eq!(header_delete(&mut header, "a.n"), Ok(Some(text("newer"))));
    assert_eq!(header_delete(&mut header, "a.n"), Ok(None));
    assert_eq!(header_delete(&mut header, "a"), Err(QueryError::Failed));
    assert_eq!(header_delete(&mut header, "list.[0]"), Err(QueryError::UnsupportedPath));
    let mut scalar = text("s");
    assert_eq!(header_insert(&mut scalar, "k", &text("v")), Err(QueryError::UnsupportedPath));
    assert_eq!(scalar, text("s"));
    let mut removed = table(vec![("ref", table(vec![("k", text("v"))])), ("other", table(vec![]))]);
    assert_eq!(removed.remove_key("ref"), Some(table(vec![("k", text("v"))])));
    assert_eq!(removed.remove_key("ref"), None);
    assert_eq!(removed, table(vec![("other", table(vec![]))]));
}

#[test]
fn sha1_hasher_gives_text_only_for_text() {
    assert_eq!(Sha1Hasher::name(), "sha1");
    assert_eq!(Sha1Hasher::hash("abc"), None);
}

#[test]
fn generators_hash_in_hexadecimal() {
    assert_eq!(Sha1::collection(), "ref");
    assert_eq!(Sha1::unique_hash("abc"), Some(String::from("a9993e364706816aba3e25717850c26c9cd0d89d")));
    assert_eq!(Sha1::unique_hash(""), Some(String::from("da39a3ee5e6b4b0d3255bfef95601890afd80709")));
    assert_eq!(
        Sha224::unique_hash("abc"),
        Some(String::from("23097d223405d8228642a477bda255b32aadbce4bda0b3f7e36c9da7"))
    );
    assert_eq!(
        Sha256::unique_hash("abc"),
        Some(String::from("ba7816bf8f01cfea414140de5dae2223b00361a396177a9cb410ff61f20015ad"))
    );
    assert_eq!(
        Sha384::unique_hash("abc"),
        Some(String::from("cb00753f45a35e8bb5a03d699ac65007272c32ab0eded1631a8b605a43ff5bed8086072ba1e7cc2358baeca134c825a7"))
    );
    assert_eq!(
        Sha512::unique_hash("abc"),
        Some(String::from("ddaf35a193617abacc417349ae20413112e6fa4e89a97ea20a9eeee64b55d39a2192992a274fc1a836ba3c23a3feebbd454d4423643ce80e2a9ac94fa54ca49f"))
    );
    assert_eq!(
        Sha3::unique_hash("abc"),
        Some(String::from("3a985da74fe225b2045c172d6bd390bd855f086e3e9d525b46bfe24511431532"))
    );
    assert_eq!(Sha1::postprocess_storeid(id("ref/x")), Ok(id("ref/x")));
}

#[test]
fn hashing_the_first_bytes() {
    assert_eq!(Sha1::hash_n_bytes(b"abcdef", 3), Sha1::unique_hash("abc"));
    assert_eq!(Sha256::hash_n_bytes(b"abc", 3), Sha256::unique_hash("abc"));
    assert_eq!(Sha1::hash_n_bytes(b"ab", 4), Sha1::unique_hash("ab\0\0"));
    assert_eq!(Sha1::hash_n_bytes(b"", 0), Sha1::unique_hash(""));
    assert_eq!(Sha1::hash_n_bytes(&[0xff, 0x61], 2), None);
    assert_eq!(Sha512::hash_n_bytes(&[0xc3, 0xa9, 0x61], 1), None);
    assert_eq!(Sha224::hash_n_bytes(&[0xc3, 0xa9, 0x61], 2), Sha224::unique_hash("\u{e9}"));
    assert_eq!(Sha384::hash_n_bytes(b"xyz", 1), Sha384::unique_hash("x"));
    assert_eq!(Sha3::hash_n_bytes(b"xyz", 2), Sha3::unique_hash("xy"));
}

#[test]
fn references_in_a_store() {
    let mut store = get_store();
    let config = some_config();
    let hash = Sha1::unique_hash("content").unwrap();
    assert_eq!(ref_id::<Sha1>(&hash), Ok(id(&format!("ref/{}", hash))));
    assert!(matches!(store.get_ref::<Sha1>(&hash), Ok(None)));
    let made = store.create_ref::<Sha1, TestHasher>("foo", "some_collection", &config, "content")
        .unwrap();
    assert_eq!(made.get_location(), &id(&format!("ref/{}", hash)));
    assert_eq!(made.entry().is_ref(), Ok(true));
    assert_eq!(made.entry().get_hash::<TestHasher>(), Ok(String::from("content")));
    store.release(made);
    let again = store.create_ref::<Sha1, TestHasher>("foo", "some_collection", &config, "content");
    assert_eq!(again.err(), Some(RefStoreError::Store(StoreError::AlreadyExists)));
    let found = store.get_ref::<Sha1>(&hash).unwrap().unwrap();
    assert_eq!(found.entry().get_path(), Ok(String::from("foo")));
    store.release(found);
    let kept = store.retrieve_ref::<Sha1, TestHasher>("foo", "some_collection", &config, "content")
        .unwrap();
    assert_eq!(kept.get_location(), &id(&format!("ref/{}", hash)));
    store.release(kept);
    let other = store.retrieve_ref::<Sha1, TestHasher>("bar", "some_collection", &config, "other")
        .unwrap();
    assert_eq!(other.entry().get_path(), Ok(String::from("bar")));
    store.release(other);
    let failed = store.create_ref::<Sha1, TestHasher>("baz", "unknown", &config, "third");
    assert_eq!(failed.err(), Some(RefStoreError::Ref(RefError::CollectionNotConfigured)));
    assert_eq!(store.cache_size().unwrap(), 3);
}

#[test]
fn brackets_in_names_are_names() {
    let mut header = table(vec![
        ("a[0", text("open")),
        ("list", HeaderValue::Array(vec![HeaderValue::Integer(1)])),
        ("t", table(vec![("x]", HeaderValue::Integer(2))])),
    ]);
    assert_eq!(header_read(&header, "a[0"), Ok(Some(text("open"))));
    assert_eq!(header_read(&header, "t.x]"), Ok(Some(HeaderValue::Integer(2))));
    assert_eq!(header_read(&header, "["), Ok(None));
    assert_eq!(header_read(&header, "]["), Ok(None));
    assert_eq!(header_read(&header, "t.[a"), Ok(None));
    assert_eq!(header_read(&header, "list.a[0]"), Err(QueryError::Failed));
    assert_eq!(header_read(&header, "[0]"), Err(QueryError::UnsupportedPath));
    assert_eq!(header_read(&header, "[]"), Err(QueryError::UnsupportedPath));
    assert_eq!(header_read(&header, "[x]"), Err(QueryError::UnsupportedPath));
    assert_eq!(header_read(&header, "t.[99999999999999999999999999]"), Err(QueryError::UnsupportedPath));
    assert_eq!(header_read(&header, "list.[0].x"), Err(QueryError::UnsupportedPath));
    assert_eq!(header_read(&header, "a..[0]"), Err(QueryError::UnsupportedPath));
    assert_eq!(header_insert(&mut header, "t.k[", &text("v")), Ok(None));
    assert_eq!(header_insert(&mut header, "[k", &text("w")), Ok(None));
    assert_eq!(header_read(&header, "t.k["), Ok(Some(text("v"))));
    assert_eq!(header_read(&header, "[k"), Ok(Some(text("w"))));
    assert_eq!(header_insert(&mut header, "t.[0]", &text("v")), Err(QueryError::UnsupportedPath));
    assert_eq!(header_delete(&mut header, "t.k["), Ok(Some(text("v"))));
    assert_eq!(header_delete(&mut header, "a[0"), Ok(Some(text("open"))));
    assert_eq!(header_delete(&mut header, "list.[0]"), Err(QueryError::UnsupportedPath));
    assert_eq!(header_delete(&mut header, "list.0]"), Err(QueryError::Failed));
}

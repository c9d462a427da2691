use imag::entry::Entry;
use imag::error::{StoreError, VerificationFailure};
use imag::file_abstraction::{FileAbstraction, InMemoryFileAbstraction};
use imag::store::{config_implicit_store_create_allowed, LocationState, Store, StoreEntryStatus};
use imag::storeid::{StoreId, StoreIdIterator};
use imag::value::HeaderValue;

fn get_store() -> Store<InMemoryFileAbstraction> {
    let backend = InMemoryFileAbstraction::new();
    Store::new_with_backend(String::from("/"), LocationState::Directory, &None, backend).unwrap()
}

fn id(s: &str) -> StoreId {
    StoreId::new(String::from(s)).unwrap()
}

fn table(entries: Vec<(&str, HeaderValue)>) -> HeaderValue {
    HeaderValue::Table(entries.into_iter().map(|(k, v)| (String::from(k), v)).collect())
}

#[test]
fn test_store_instantiation() {
    let store = get_store();

    assert_eq!(store.path(), &String::from("/"));
    assert_eq!(store.cache_size().unwrap(), 0);
}

#[test]
fn test_store_create() {
    let mut store = get_store();

    for n in 1..100 {
        let s = format!("test-{}", n);
        let entry = store.create(id(&s)).unwrap();
        assert!(entry.verify().is_ok());
        let loc = entry.get_location().clone().with_base(store.path()).into_pathbuf().unwrap();
        assert!(loc.starts_with("/"));
        assert!(loc.ends_with(&s));
        store.release(entry);
    }
}

#[test]
fn test_store_get_create_get_delete_get() {
    let mut store = get_store();

    for n in 1..100 {
        let res = store.get(id(&format!("test-{}", n)));
        assert!(match res { Ok(None) => true, _ => false, })
    }

    for n in 1..100 {
        let s = format!("test-{}", n);
        let entry = store.create(id(&s)).unwrap();

        assert!(entry.verify().is_ok());

        let loc = entry.get_location().clone().with_base(store.path()).into_pathbuf().unwrap();

        assert!(loc.starts_with("/"));
        assert!(loc.ends_with(&s));
        store.release(entry);
    }

    for n in 1..100 {
        let res = store.get(id(&format!("test-{}", n)));
        assert!(match res { Ok(Some(_)) => true, _ => false, });
        store.release(res.unwrap().unwrap());
    }

    for n in 1..100 {
        assert!(store.delete(id(&format!("test-{}", n))).is_ok())
    }

    for n in 1..100 {
        let res = store.get(id(&format!("test-{}", n)));
        assert!(match res { Ok(None) => true, _ => false, })
    }
}

#[test]
fn test_store_create_twice() {
    let mut store = get_store();

    for n in 1..100 {
        let s = format!("test-{}", n % 50);
        let created = store.create(id(&s)).ok();
        if let Some(entry) = created {
            assert!(entry.verify().is_ok());
            let loc = entry.get_location().clone().with_base(store.path()).into_pathbuf().unwrap();
            assert!(loc.starts_with("/"));
            assert!(loc.ends_with(&s));
            store.release(entry);
        }
    }
}

#[test]
fn test_store_create_in_hm() {
    let mut store = get_store();

    for n in 1..100 {
        let pb = id(&format!("test-{}", n));

        assert!(store.status_of(&pb).is_none());
        let created = store.create(pb.clone());
        assert!(created.is_ok());
        store.release(created.unwrap());
        assert!(store.status_of(&pb).is_some());
    }
}

#[test]
fn test_store_retrieve_in_hm() {
    let mut store = get_store();

    for n in 1..100 {
        let pb = id(&format!("test-{}", n));

        assert!(store.status_of(&pb).is_none());
        let retrieved = store.retrieve(pb.clone());
        assert!(retrieved.is_ok());
        store.release(retrieved.unwrap());
        assert!(store.status_of(&pb).is_some());
    }
}

#[test]
fn test_get_none() {
    let mut store = get_store();

    for n in 1..100 {
        match store.get(id(&format!("test-{}", n))) {
            Ok(None) => assert!(true),
            _ => assert!(false),
        }
    }
}

#[test]
fn test_delete_none() {
    let mut store = get_store();

    for n in 1..100 {
        match store.delete(id(&format!("test-{}", n))) {
            Err(_) => assert!(true),
            _ => assert!(false),
        }
    }
}

#[test]
fn test_store_move_moves_in_hm() {
    let mut store = get_store();

    for n in 1..100 {
        if n % 2 == 0 {
            let id_old = id(&format!("t-{}", n));
            let id_mv = id(&format!("t-{}", n - 1));

            assert!(store.status_of(&id_old).is_none());

            let created = store.create(id_old.clone());
            assert!(created.is_ok());
            store.release(created.unwrap());

            assert!(store.status_of(&id_old).is_some());

            let r = store.move_by_id(id_old.clone(), id_mv.clone());
            assert!(r.is_ok());

            assert!(store.status_of(&id_mv).is_some());

            let res = store.get(id_old.clone());
            assert!(match res { Ok(None) => true, _ => false }, "Moved id ({:?}) is still there", id_old);

            let res = store.get(id_mv.clone());
            assert!(match res { Ok(Some(_)) => true, _ => false }, "New id ({:?}) is not in store", id_mv);
        }
    }
}

#[test]
fn create_twice_fails_with_already_exists() {
    let mut store = get_store();
    for n in 1..100 {
        let name = format!("test-{}", n);
        let first = store.create(id(&name));
        assert!(first.is_ok());
        assert_eq!(store.create(id(&name)).err(), Some(StoreError::AlreadyExists));
        store.release(first.unwrap());
        assert_eq!(store.create(id(&name)).err(), Some(StoreError::AlreadyExists));
    }
    assert_eq!(store.cache_size().unwrap(), 99);
}

#[test]
fn borrowed_entries_are_exclusive() {
    let mut store = get_store();
    let handle = store.create(id("a")).unwrap();
    assert_eq!(store.status_of(&id("a")), Some(StoreEntryStatus::Borrowed));
    assert_eq!(store.retrieve(id("a")).err(), Some(StoreError::Locked));
    assert_eq!(store.get(id("a")).err(), Some(StoreError::Locked));
    assert_eq!(store.get_copy(id("a")).err(), Some(StoreError::Locked));
    assert_eq!(store.delete(id("a")), Err(StoreError::Locked));
    assert_eq!(store.move_by_id(id("a"), id("b")), Err(StoreError::Locked));
    store.release(handle);
    assert_eq!(store.status_of(&id("a")), Some(StoreEntryStatus::Present));
    let again = store.retrieve(id("a"));
    assert!(again.is_ok());
}

#[test]
fn delete_lifecycle() {
    let mut store = get_store();
    assert_eq!(store.delete(id("fresh")), Err(StoreError::NotFound));
    let handle = store.create(id("fresh")).unwrap();
    store.release(handle);
    assert_eq!(store.delete(id("fresh")), Ok(()));
    assert!(matches!(store.get(id("fresh")), Ok(None)));
    assert_eq!(store.delete(id("fresh")), Err(StoreError::NotFound));
    assert_eq!(store.entry_exists(id("fresh")), Ok(false));
}

#[test]
fn update_writes_through_and_keeps_the_borrow() {
    let mut store = get_store();
    let mut handle = store.create(id("doc")).unwrap();
    handle.set_content(String::from("first"));
    assert_eq!(store.update(&mut handle), Ok(()));
    assert_eq!(store.status_of(&id("doc")), Some(StoreEntryStatus::Borrowed));
    handle.set_content(String::from("second"));
    store.release(handle);
    let copy = store.get_copy(id("doc")).unwrap();
    assert_eq!(copy.get_content(), "second");
    assert_eq!(copy.get_location(), &id("doc"));
    let handle = store.get(id("doc")).unwrap().unwrap();
    assert_eq!(handle.get_content(), "second");
    assert_eq!(handle.entry(), &copy);
}

#[test]
fn update_needs_a_verified_header() {
    let mut store = get_store();
    let mut handle = store.create(id("doc")).unwrap();
    handle.set_header(table(vec![("imag", table(vec![]))]));
    assert_eq!(
        store.update(&mut handle),
        Err(StoreError::VerificationFailed(VerificationFailure::MissingVersionInfo))
    );
    handle.set_header(table(vec![]));
    assert_eq!(
        store.update(&mut handle),
        Err(StoreError::VerificationFailed(VerificationFailure::MissingMainSection))
    );
    assert_eq!(store.status_of(&id("doc")), Some(StoreEntryStatus::Borrowed));
    store.release(handle);
    assert_eq!(store.status_of(&id("doc")), Some(StoreEntryStatus::Present));
    assert_eq!(store.entry_exists(id("doc")), Ok(true));
    let again = store.retrieve(id("doc")).unwrap();
    assert_eq!(again.entry(), &Entry::new(id("doc")));
    store.release(again);
}

#[test]
fn release_ends_the_borrow_of_what_is_not_written() {
    let mut store = get_store();
    let mut handle = store.create(id("kept")).unwrap();
    handle.set_content(String::from("written"));
    assert_eq!(store.update(&mut handle), Ok(()));
    handle.set_content(String::from("never written"));
    handle.set_header(table(vec![("bare", HeaderValue::Integer(1))]));
    store.release(handle);
    assert_eq!(store.status_of(&id("kept")), Some(StoreEntryStatus::Present));
    let copy = store.get_copy(id("kept")).unwrap();
    assert_eq!(copy.get_content(), "written");
    assert_eq!(copy.get_header(), &Entry::default_header());
    let again = store.get(id("kept")).unwrap().unwrap();
    assert_eq!(again.get_content(), "written");
    store.release(again);
    assert_eq!(store.delete(id("kept")), Ok(()));
}

#[test]
fn update_of_an_unknown_entry_fails() {
    let mut store = get_store();
    let mut other = get_store();
    let mut handle = other.create(id("elsewhere")).unwrap();
    assert_eq!(store.update(&mut handle), Err(StoreError::NotFound));
}

#[test]
fn retrieve_makes_what_is_missing() {
    let mut store = get_store();
    let handle = store.retrieve(id("new")).unwrap();
    assert_eq!(handle.entry(), &Entry::new(id("new")));
    assert_eq!(store.entry_exists(id("new")), Ok(true));
    store.release(handle);
    assert_eq!(store.get_copy(id("new")).unwrap(), Entry::new(id("new")));
    assert_eq!(store.get_copy(id("never")).unwrap(), Entry::new(id("never")));
    assert_eq!(store.entry_exists(id("never")), Ok(false));
}

#[test]
fn flush_keeps_what_is_borrowed() {
    let mut store = get_store();
    let mut handles = Vec::new();
    for n in 0..20 {
        handles.push(store.create(id(&format!("e-{}", n))).unwrap());
    }
    assert_eq!(store.cache_size().unwrap(), 20);
    assert_eq!(store.flush_cache(), Ok(()));
    assert_eq!(store.cache_size().unwrap(), 20);
    for n in 0..20 {
        assert_eq!(store.status_of(&id(&format!("e-{}", n))), Some(StoreEntryStatus::Borrowed));
    }
    let capacity_before = store.cache_capacity().unwrap();
    assert!(capacity_before >= 20);
    let kept = handles.pop().unwrap();
    for handle in handles {
        store.release(handle);
    }
    assert_eq!(store.flush_cache(), Ok(()));
    assert_eq!(store.cache_size().unwrap(), 1);
    store.release(kept);
    assert_eq!(store.flush_cache(), Ok(()));
    assert_eq!(store.cache_size().unwrap(), 0);
    assert!(store.cache_capacity().unwrap() < capacity_before);
    for n in 0..20 {
        let got = store.get(id(&format!("e-{}", n)));
        assert!(matches!(got, Ok(Some(_))));
    }
}

#[test]
fn move_to_an_id_that_exists_fails() {
    let mut store = get_store();
    let a = store.create(id("a")).unwrap();
    store.release(a);
    let mut b = store.create(id("b")).unwrap();
    b.set_content(String::from("b's"));
    store.release(b);
    assert_eq!(store.move_by_id(id("a"), id("b")), Err(StoreError::AlreadyExists));
    assert_eq!(store.get_copy(id("b")).unwrap().get_content(), "b's");
    assert_eq!(store.get_copy(id("a")).unwrap().get_content(), "");
    assert_eq!(store.flush_cache(), Ok(()));
    assert_eq!(store.move_by_id(id("a"), id("b")), Err(StoreError::AlreadyExists));
    assert_eq!(store.move_by_id(id("missing"), id("c")), Err(StoreError::BackendIo));
    assert_eq!(store.move_by_id(id("a"), id("c")), Ok(()));
    assert_eq!(store.entry_exists(id("a")), Ok(false));
    assert_eq!(store.entry_exists(id("c")), Ok(true));
}

#[test]
fn save_to_copies_and_save_as_moves() {
    let mut store = get_store();
    let mut handle = store.create(id("orig")).unwrap();
    handle.set_content(String::from("text"));
    assert_eq!(store.update(&mut handle), Ok(()));
    assert_eq!(store.save_to(&handle, id("copy")), Ok(()));
    assert_eq!(store.save_to(&handle, id("copy")), Err(StoreError::AlreadyExists));
    assert_eq!(store.get_copy(id("copy")).unwrap().get_content(), "text");
    assert_eq!(store.entry_exists(id("orig")), Ok(true));
    assert_eq!(store.save_as(handle, id("moved")), Ok(()));
    assert_eq!(store.entry_exists(id("orig")), Ok(false));
    assert_eq!(store.get_copy(id("moved")).unwrap().get_content(), "text");

    let handle = store.create(id("unwritten")).unwrap();
    assert_eq!(store.save_to(&handle, id("nowhere")), Err(StoreError::BackendIo));
    assert_eq!(store.save_as(handle, id("copy")), Err(StoreError::AlreadyExists));
    assert_eq!(store.status_of(&id("unwritten")), Some(StoreEntryStatus::Present));
}

#[test]
fn entries_lists_what_the_backend_keeps() {
    let mut store = get_store();
    for name in ["b/2", "a/1", "c"] {
        let handle = store.create(id(name)).unwrap();
        store.release(handle);
    }
    let pending = store.create(id("pending")).unwrap();
    let mut ids = store.entries().unwrap();
    let mut found = Vec::new();
    while let Some(item) = ids.next() {
        found.push(item.unwrap().local_display_string());
    }
    found.sort();
    assert_eq!(found, vec!["a/1", "b/2", "c"]);
    store.release(pending);
}

#[test]
fn store_bound_iterators() {
    let mut store = get_store();
    let ids = || {
        StoreIdIterator::new(vec![Ok(id("x")), Err(StoreError::InvalidId), Ok(id("y"))])
    };

    let mut creating = ids().into_create_iter();
    let x = creating.next(&mut store).unwrap().unwrap();
    assert_eq!(creating.next(&mut store).unwrap().err(), Some(StoreError::InvalidId));
    let y = creating.next(&mut store).unwrap().unwrap();
    assert!(creating.next(&mut store).is_none());
    store.release(x);
    store.release(y);

    let mut creating = ids().into_create_iter();
    assert_eq!(creating.next(&mut store).unwrap().err(), Some(StoreError::AlreadyExists));

    let mut getting = StoreIdIterator::new(vec![Ok(id("nope")), Ok(id("y")), Ok(id("none")), Ok(id("x"))])
        .into_get_iter();
    let y = getting.next(&mut store).unwrap().unwrap();
    assert_eq!(y.get_location(), &id("y"));
    let x = getting.next(&mut store).unwrap().unwrap();
    assert_eq!(x.get_location(), &id("x"));
    assert!(getting.next(&mut store).is_none());
    store.release(x);

    let mut retrieving = StoreIdIterator::new(vec![Ok(id("y")), Ok(id("z"))]).into_retrieve_iter();
    assert_eq!(retrieving.next(&mut store).unwrap().err(), Some(StoreError::Locked));
    let z = retrieving.next(&mut store).unwrap().unwrap();
    assert!(retrieving.next(&mut store).is_none());
    store.release(y);
    store.release(z);

    let mut deleting = StoreIdIterator::new(vec![Ok(id("x")), Ok(id("gone")), Ok(id("y"))])
        .into_delete_iter();
    assert_eq!(deleting.next(&mut store), Some(Ok(())));
    assert_eq!(deleting.next(&mut store), Some(Err(StoreError::NotFound)));
    assert_eq!(deleting.next(&mut store), Some(Ok(())));
    assert_eq!(deleting.next(&mut store), None);
    assert_eq!(store.entry_exists(id("x")), Ok(false));
}

#[test]
fn opening_a_store() {
    let open = |state, config: &Option<HeaderValue>| {
        Store::new_with_backend(String::from("/s"), state, config, InMemoryFileAbstraction::new())
            .map(|_| ())
    };
    let allow = |b| Some(table(vec![("store", table(vec![("implicit-create", HeaderValue::Boolean(b))]))]));
    assert_eq!(open(LocationState::Directory, &None), Ok(()));
    assert_eq!(open(LocationState::File, &None), Err(StoreError::AlreadyExists));
    assert_eq!(open(LocationState::Missing, &None), Err(StoreError::BackendIo));
    assert_eq!(open(LocationState::Missing, &allow(false)), Err(StoreError::BackendIo));
    assert_eq!(open(LocationState::Missing, &allow(true)), Ok(()));
    assert_eq!(open(LocationState::Missing, &Some(table(vec![]))), Err(StoreError::Configuration));
    assert_eq!(
        config_implicit_store_create_allowed(&Some(table(vec![(
            "store",
            table(vec![("implicit-create", HeaderValue::Integer(1))])
        )]))),
        Err(StoreError::Configuration)
    );
    assert_eq!(config_implicit_store_create_allowed(&allow(true)), Ok(true));
    assert_eq!(config_implicit_store_create_allowed(&None), Ok(false));
}

#[test]
fn in_memory_backend() {
    let mut backend = InMemoryFileAbstraction::new();
    let header = Entry::default_header();
    assert_eq!(backend.path_exists("/a"), Ok(false));
    assert_eq!(backend.get_file_content("/a"), Ok(None));
    assert_eq!(backend.write_file_content("/a", &header, "one"), Ok(()));
    assert_eq!(backend.path_exists("/a"), Ok(true));
    assert_eq!(backend.copy("/a", "/dir/b"), Ok(()));
    assert_eq!(backend.copy("/missing", "/c"), Err(StoreError::BackendIo));
    assert_eq!(backend.rename("/a", "/dir/c"), Ok(()));
    assert_eq!(backend.rename("/a", "/d"), Err(StoreError::BackendIo));
    assert_eq!(backend.path_exists("/a"), Ok(false));
    assert_eq!(backend.get_file_content("/dir/c"), Ok(Some((Entry::default_header(), String::from("one")))));
    assert_eq!(backend.write_file_content("/other", &header, "two"), Ok(()));
    let mut under = backend.pathes_recursively("/dir").unwrap();
    under.sort();
    assert_eq!(under, vec!["/dir/b", "/dir/c"]);
    assert_eq!(backend.pathes_recursively("/").unwrap().len(), 3);
    assert_eq!(backend.remove_file("/dir/b"), Ok(()));
    assert_eq!(backend.remove_file("/dir/b"), Err(StoreError::BackendIo));
    assert_eq!(backend.create_dir_all("/x/y"), Ok(()));
}

#[test]
fn paths_are_taken_for_ids() {
    let mut store = get_store();
    let handle = store.create(String::from("dir//entry")).unwrap();
    assert_eq!(handle.get_location(), &id("dir/entry"));
    store.release(handle);
    assert!(matches!(store.get("dir/entry"), Ok(Some(_))));
    assert_eq!(store.create("/absolute").err(), Some(StoreError::InvalidId));
    assert_eq!(store.retrieve(String::from("/absolute")).err(), Some(StoreError::InvalidId));
    assert_eq!(store.get("/absolute").err(), Some(StoreError::InvalidId));
    assert_eq!(store.get_copy("/absolute").err(), Some(StoreError::InvalidId));
    assert_eq!(store.delete("/absolute"), Err(StoreError::InvalidId));
    assert_eq!(store.cache_size().unwrap(), 1);
}

#[test]
fn handles_change_their_entry() {
    let mut store = get_store();
    let mut handle = store.create("doc").unwrap();
    handle.entry_mut().get_content_mut().push_str("through the entry");
    assert_eq!(handle.get_content(), "through the entry");
    assert_eq!(handle.get_header(), &Entry::default_header());
    assert_eq!(handle.verify(), Ok(()));
    assert_eq!(handle.entry_mut().replace_from_buffer("broken"), Err(StoreError::MalformedEntry));
    assert_eq!(handle.get_content(), "through the entry");
    store.release(handle);
    assert_eq!(store.get_copy("doc").unwrap().get_content(), "through the entry");
}

#[test]
fn ids_compare_by_their_text() {
    let a = id("a/b");
    assert!(a.same(&id("a//b")));
    assert!(!a.same(&id("a/c")));
    assert_eq!(a.duplicate(), a);
}

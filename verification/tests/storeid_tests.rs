use imag::error::StoreError;
use imag::storeid::{
    components_of, join_paths, normalize, skip_leading_separators, strip_prefix, Component,
    IntoStoreId, ModuleEntryPath, StoreId, StoreIdIterator, StoreIdWithBase,
};

#[test]
fn test_correct_path() {
    let p = ModuleEntryPath::new("test", "test");

    assert_eq!(p.into_storeid().unwrap().to_str().unwrap(), "test/test");
}

#[test]
fn test_baseless_path() {
    let id = StoreId::new(String::from("test"));
    assert!(id.is_ok());
    assert_eq!(id.unwrap().local(), &String::from("test"));
}

#[test]
fn test_base_path() {
    let id = StoreId::new(String::from("test"));
    assert!(id.is_ok());
    assert_eq!(id.unwrap(), StoreId::new(String::from("test")).unwrap());
}

#[test]
fn test_adding_base_to_baseless_path() {
    let id = StoreId::new(String::from("test"));

    assert!(id.is_ok());
    let id = id.unwrap();

    assert_eq!(id, StoreId::new(String::from("test")).unwrap());

    let storebase = String::from("/tmp/");
    let id = id.with_base(&storebase);
    assert_eq!(id, StoreIdWithBase(&String::from("/tmp/"), String::from("test")));
}

#[test]
fn storeid_in_collection() {
    let p = ModuleEntryPath::new("test", "1/2/3/4/5/6/7/8/9/0").into_storeid().unwrap();

    assert!(p.is_in_collection(&["test", "1"]));
    assert!(p.is_in_collection(&["test", "1", "2"]));
    assert!(p.is_in_collection(&["test", "1", "2", "3"]));
    assert!(p.is_in_collection(&["test", "1", "2", "3", "4"]));
    assert!(p.is_in_collection(&["test", "1", "2", "3", "4", "5"]));
    assert!(p.is_in_collection(&["test", "1", "2", "3", "4", "5", "6"]));
    assert!(p.is_in_collection(&["test", "1", "2", "3", "4", "5", "6", "7"]));
    assert!(p.is_in_collection(&["test", "1", "2", "3", "4", "5", "6", "7", "8"]));
    assert!(p.is_in_collection(&["test", "1", "2", "3", "4", "5", "6", "7", "8", "9"]));
    assert!(p.is_in_collection(&["test", "1", "2", "3", "4", "5", "6", "7", "8", "9", "0"]));

    assert!(!p.is_in_collection(&["test", "0", "2", "3", "4", "5", "6", "7", "8", "9", "0"]));
    assert!(!p.is_in_collection(&["test", "1", "2", "3", "4", "5", "6", "8"]));
    assert!(!p.is_in_collection(&["test", "1", "2", "3", "leet", "5", "6", "7"]));
}

#[test]
fn absolute_path_is_no_id() {
    assert_eq!(StoreId::new(String::from("/tmp/test")), Err(StoreError::InvalidId));
    assert_eq!(StoreId::new(String::from("/")), Err(StoreError::InvalidId));
    assert!(ModuleEntryPath::new("test", "/abs").into_storeid().is_err());
}

#[test]
fn empty_path_is_an_id() {
    let id = StoreId::new(String::new()).unwrap();
    assert_eq!(id.local_display_string(), "");
    assert!(id.components().is_empty());
    assert!(!id.is_in_collection(&["anything"]));
    assert!(id.is_in_collection(&[]));
}

#[test]
fn ids_are_kept_in_normal_form() {
    assert_eq!(StoreId::new(String::from("a//b/")).unwrap().local_display_string(), "a/b");
    assert_eq!(StoreId::new(String::from("a/./b")).unwrap().local_display_string(), "a/b");
    assert_eq!(StoreId::new(String::from("./a")).unwrap().local_display_string(), "./a");
    assert_eq!(StoreId::new(String::from("a/../b")).unwrap().local_display_string(), "a/../b");
    assert_eq!(
        StoreId::new(String::from("a//b")).unwrap(),
        StoreId::new(String::from("a/b")).unwrap()
    );
    assert_eq!(normalize("/a//b/"), "/a/b");
    assert_eq!(normalize("/"), "/");
    assert_eq!(normalize(""), "");
}

#[test]
fn components_of_a_path() {
    assert_eq!(
        components_of("/tmp//foo/./bar/../baz/"),
        vec![
            Component::RootDir,
            Component::Normal(String::from("tmp")),
            Component::Normal(String::from("foo")),
            Component::Normal(String::from("bar")),
            Component::ParentDir,
            Component::Normal(String::from("baz")),
        ]
    );
    assert_eq!(
        components_of("./x"),
        vec![Component::CurDir, Component::Normal(String::from("x"))]
    );
    assert_eq!(components_of("..."), vec![Component::Normal(String::from("..."))]);
    let id = StoreId::new(String::from("a/b")).unwrap();
    assert_eq!(
        id.components(),
        vec![Component::Normal(String::from("a")), Component::Normal(String::from("b"))]
    );
}

#[test]
fn special_components_are_in_no_collection() {
    let id = StoreId::new(String::from("../a")).unwrap();
    assert!(!id.is_in_collection(&[".."]));
    assert!(!id.is_in_collection(&["..", "a"]));
    let id = StoreId::new(String::from("a/b")).unwrap();
    assert!(id.is_in_collection(&[]));
    assert!(id.is_in_collection(&["a"]));
    assert!(id.is_in_collection(&["a", "b"]));
    assert!(!id.is_in_collection(&["a", "b", "c"]));
    assert!(!id.is_in_collection(&["b"]));
}

#[test]
fn joining_paths() {
    assert_eq!(join_paths("/tmp", "test"), "/tmp/test");
    assert_eq!(join_paths("/tmp/", "test"), "/tmp/test");
    assert_eq!(join_paths("", "test"), "test");
    assert_eq!(join_paths("/tmp", "/abs"), "/abs");
    assert_eq!(join_paths("a", ""), "a/");
    let base = String::from("/tmp/");
    let id = StoreId::new(String::from("test")).unwrap().with_base(&base);
    assert_eq!(id.to_str().unwrap(), "/tmp/test");
    assert_eq!(id.clone().into_pathbuf().unwrap(), "/tmp/test");
    assert_eq!(id.without_base(), StoreId::new(String::from("test")).unwrap());
}

#[test]
fn local_push_appends() {
    let mut id = StoreId::new(String::from("a")).unwrap();
    id.local_push("b");
    assert_eq!(id.local_display_string(), "a/b");
    id.local_push("c//d/");
    assert_eq!(id.local_display_string(), "a/b/c/d");
    let mut empty = StoreId::new(String::new()).unwrap();
    empty.local_push("x");
    assert_eq!(empty.local_display_string(), "x");
}

#[test]
fn stripping_the_root() {
    assert_eq!(strip_prefix("/tmp/", "/tmp/test"), Some(String::from("test")));
    assert_eq!(strip_prefix("/tmp", "/tmp//a/b/"), Some(String::from("a/b")));
    assert_eq!(strip_prefix("/tmp", "/tmp"), Some(String::new()));
    assert_eq!(strip_prefix("/tmp", "/tmpx/a"), None);
    assert_eq!(strip_prefix("/tmp/a", "/tmp"), None);
    assert_eq!(strip_prefix("", "a/b"), Some(String::from("a/b")));
    let base = String::from("/store");
    let id = StoreIdWithBase::from_full_path(&base, "/store/x/y").unwrap();
    assert_eq!(id.without_base().local_display_string(), "x/y");
    assert_eq!(
        StoreIdWithBase::from_full_path(&base, "/elsewhere/x").err(),
        Some(StoreError::InvalidId)
    );
}

#[test]
fn iterator_hands_out_in_order() {
    let mut it = StoreIdIterator::new(vec![
        StoreId::new(String::from("a")),
        Err(StoreError::InvalidId),
        StoreId::new(String::from("b")),
    ]);
    assert_eq!(it.next(), Some(Ok(StoreId::new(String::from("a")).unwrap())));
    assert_eq!(it.next(), Some(Err(StoreError::InvalidId)));
    assert_eq!(it.next(), Some(Ok(StoreId::new(String::from("b")).unwrap())));
    assert_eq!(it.next(), None);
    assert_eq!(it.next(), None);
}

#[test]
fn what_turns_into_an_id() {
    assert_eq!(String::from("a//b").into_storeid(), StoreId::new(String::from("a/b")));
    assert_eq!("x/y/".into_storeid(), StoreId::new(String::from("x/y")));
    assert_eq!("/x".into_storeid(), Err(StoreError::InvalidId));
    let id = StoreId::new(String::from("k")).unwrap();
    assert_eq!(id.clone().into_storeid(), Ok(id.clone()));
    let base = String::from("/store");
    assert_eq!(id.clone().with_base(&base).into_storeid(), Ok(id));
    assert_eq!(
        ModuleEntryPath::new("mod", "entry").into_storeid(),
        StoreId::new(String::from("mod/entry"))
    );
}

#[test]
fn ids_stay_relative() {
    let mut id = StoreId::new(String::from("a")).unwrap();
    id.local_push("/abs/b");
    assert_eq!(id.local_display_string(), "a/abs/b");
    id.local_push("///");
    assert_eq!(id.local_display_string(), "a/abs/b");
    let mut empty = StoreId::new(String::new()).unwrap();
    empty.local_push("/x//y/");
    assert_eq!(empty.local_display_string(), "x/y");
    assert!(StoreId::new(empty.local_display_string()).is_ok());
    assert_eq!(skip_leading_separators("//a/b"), "a/b");
    assert_eq!(skip_leading_separators("a//b"), "a//b");
    assert_eq!(skip_leading_separators("/"), "");
    assert_eq!(skip_leading_separators(""), "");
    let base = String::from("/store");
    let based = StoreIdWithBase::new(&base, String::from("/etc//passwd"));
    assert_eq!(based.clone().without_base().local_display_string(), "etc/passwd");
    assert_eq!(based.into_storeid(), StoreId::new(String::from("etc/passwd")));
    let kept = StoreIdWithBase::new(&base, String::from("a/./b/"));
    assert_eq!(kept.without_base().local_display_string(), "a/b");
}

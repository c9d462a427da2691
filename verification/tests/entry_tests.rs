use imag::entry::{
    entry_buffer_to_header_content, has_imag_version_in_main_section, has_main_section,
    has_only_tables, split_buffer, Entry,
};
use imag::error::{StoreError, VerificationFailure};
use imag::storeid::StoreId;
use imag::value::HeaderValue;

fn table(entries: Vec<(&str, HeaderValue)>) -> HeaderValue {
    HeaderValue::Table(entries.into_iter().map(|(k, v)| (String::from(k), v)).collect())
}

fn text(s: &str) -> HeaderValue {
    HeaderValue::String(String::from(s))
}

fn id(s: &str) -> StoreId {
    StoreId::new(String::from(s)).unwrap()
}

#[test]
fn test_imag_section() {
    let map = table(vec![("imag", table(vec![]))]);

    assert!(has_main_section(&map).unwrap());
}

#[test]
fn test_imag_abscent_main_section() {
    let map = table(vec![("not_imag", HeaderValue::Boolean(false))]);

    assert!(has_main_section(&map).is_err());
}

#[test]
fn test_main_section_without_version() {
    let map = table(vec![("imag", table(vec![]))]);

    assert!(has_imag_version_in_main_section(&map).is_err());
}

#[test]
fn test_main_section_with_version() {
    let sub = table(vec![("version", text("0.0.0"))]);
    let map = table(vec![("imag", sub)]);

    assert!(has_imag_version_in_main_section(&map).unwrap());
}

#[test]
fn test_main_section_with_version_in_wrong_type() {
    let sub = table(vec![("version", HeaderValue::Boolean(false))]);
    let map = table(vec![("imag", sub)]);

    assert!(has_imag_version_in_main_section(&map).is_err());
}

static TEST_ENTRY: &'static str = "---
[imag]
version = '0.0.3'
---
Hai";

static TEST_ENTRY_TNL: &'static str = "---
[imag]
version = '0.0.3'
---
Hai

";

#[test]
fn test_entry_from_str() {
    let entry = Entry::from_str(id("test/foo~1.3"), TEST_ENTRY).unwrap();

    assert_eq!(entry.get_content(), "Hai");
}

#[test]
fn test_entry_to_str() {
    let entry = Entry::from_str(id("test/foo~1.3"), TEST_ENTRY).unwrap();
    let string = entry.to_str().unwrap();

    assert_eq!(TEST_ENTRY, string);
}

#[test]
fn test_entry_to_str_trailing_newline() {
    let entry = Entry::from_str(id("test/foo~1.3"), TEST_ENTRY_TNL).unwrap();
    let string = entry.to_str().unwrap();

    assert_eq!(TEST_ENTRY_TNL, string);
}

#[test]
fn entry_from_str_reads_the_header() {
    let entry = Entry::from_str(id("test/foo~1.3"), TEST_ENTRY).unwrap();
    assert_eq!(entry.get_location(), &id("test/foo~1.3"));
    assert_eq!(entry.get_header(), &table(vec![("imag", table(vec![("version", text("0.0.3"))]))]));
    assert!(entry.verify().is_ok());
}

#[test]
fn split_buffer_finds_the_parts() {
    assert_eq!(
        split_buffer("---\na = 1\n---\nbody\n---\nmore"),
        Some((String::from("a = 1\n"), String::from("body\n---\nmore")))
    );
    assert_eq!(split_buffer("---\n---\n"), Some((String::new(), String::new())));
    assert_eq!(split_buffer("---\n---"), Some((String::new(), String::new())));
    assert_eq!(split_buffer("---\nx\n---"), Some((String::from("x\n"), String::new())));
    assert_eq!(
        split_buffer("---\nx = '---'\n----\n---\n\n\n"),
        Some((String::from("x = '---'\n----\n"), String::from("\n\n")))
    );
}

#[test]
fn split_buffer_rejects_what_lacks_a_delimiter() {
    assert_eq!(split_buffer(""), None);
    assert_eq!(split_buffer("---"), None);
    assert_eq!(split_buffer("---\n"), None);
    assert_eq!(split_buffer("---\n[imag]\nversion = '0.0.3'\n"), None);
    assert_eq!(split_buffer("[imag]\n---\n---\n"), None);
    assert_eq!(split_buffer("----\n---\n"), None);
    assert_eq!(split_buffer("---\nx---\n"), None);
    assert_eq!(split_buffer("---\n--- \n"), None);
}

#[test]
fn malformed_buffers_are_rejected() {
    assert_eq!(Entry::from_str(id("a"), "Hai").err(), Some(StoreError::MalformedEntry));
    assert_eq!(
        Entry::from_str(id("a"), "---\nthis is no toml\n---\nHai").err(),
        Some(StoreError::MalformedEntry)
    );
    assert_eq!(
        entry_buffer_to_header_content("---\n[imag\n---\n").err(),
        Some(StoreError::MalformedEntry)
    );
}

#[test]
fn header_values_of_every_kind_are_read() {
    let buf = "---\n[a]\nb = true\nd = 1979-05-27T07:32:00Z\nf = 1.5\ni = -3\nl = [1, 2]\ns = \"x\"\n---\n";
    let (header, content) = entry_buffer_to_header_content(buf).unwrap();
    assert_eq!(content, "");
    assert_eq!(
        header,
        table(vec![(
            "a",
            table(vec![
                ("b", HeaderValue::Boolean(true)),
                ("d", HeaderValue::Datetime(String::from("1979-05-27T07:32:00Z"))),
                ("f", HeaderValue::Float(String::from("1.5"))),
                ("i", HeaderValue::Integer(-3)),
                ("l", HeaderValue::Array(vec![HeaderValue::Integer(1), HeaderValue::Integer(2)])),
                ("s", text("x")),
            ])
        )])
    );
    let entry = Entry::from_parts(id("k"), header, String::from("body"));
    let written = entry.to_str().unwrap();
    assert_eq!(
        written,
        "---\n[a]\nb = true\nd = 1979-05-27T07:32:00Z\nf = 1.5\ni = -3\nl = [\n    1,\n    2,\n]\ns = 'x'\n---\nbody"
    );
    let again = Entry::from_str(id("k"), &written).unwrap();
    assert_eq!(again, entry);
}

#[test]
fn new_entry_has_the_default_header() {
    let entry = Entry::new(id("x"));
    assert_eq!(entry.get_content(), "");
    assert_eq!(
        entry.get_header(),
        &table(vec![("imag", table(vec![("version", text("0.10.0"))]))])
    );
    assert_eq!(entry.get_header(), &Entry::default_header());
    assert!(entry.verify().is_ok());
    assert_eq!(entry.to_str().unwrap(), "---\n[imag]\nversion = '0.10.0'\n---\n");
}

#[test]
fn replace_from_buffer_is_all_or_nothing() {
    let mut entry = Entry::new(id("x"));
    let before = entry.clone();
    assert_eq!(entry.replace_from_buffer("no delimiters"), Err(StoreError::MalformedEntry));
    assert_eq!(entry, before);
    assert_eq!(entry.replace_from_buffer("---\n= broken\n---\ntext"), Err(StoreError::MalformedEntry));
    assert_eq!(entry, before);
    assert_eq!(entry.replace_from_buffer(TEST_ENTRY_TNL), Ok(()));
    assert_eq!(entry.get_content(), "Hai\n\n");
    assert_eq!(entry.get_header(), &table(vec![("imag", table(vec![("version", text("0.0.3"))]))]));
    assert_eq!(entry.get_location(), &id("x"));
}

#[test]
fn verify_names_the_rule_that_is_broken() {
    let mut entry = Entry::new(id("x"));
    entry.set_header(table(vec![("other", table(vec![]))]));
    assert_eq!(
        entry.verify(),
        Err(StoreError::VerificationFailed(VerificationFailure::MissingMainSection))
    );
    entry.set_header(table(vec![("imag", text("0.1.0"))]));
    assert_eq!(
        entry.verify(),
        Err(StoreError::VerificationFailed(VerificationFailure::MissingMainSection))
    );
    entry.set_header(text("no table"));
    assert_eq!(
        entry.verify(),
        Err(StoreError::VerificationFailed(VerificationFailure::MissingMainSection))
    );
    entry.set_header(table(vec![("imag", table(vec![]))]));
    assert_eq!(
        entry.verify(),
        Err(StoreError::VerificationFailed(VerificationFailure::MissingVersionInfo))
    );
    entry.set_header(table(vec![("imag", table(vec![("version", text("not a version"))]))]));
    assert_eq!(
        entry.verify(),
        Err(StoreError::VerificationFailed(VerificationFailure::MissingVersionInfo))
    );
    entry.set_header(table(vec![("imag", table(vec![("version", HeaderValue::Integer(1))]))]));
    assert_eq!(
        entry.verify(),
        Err(StoreError::VerificationFailed(VerificationFailure::MissingVersionInfo))
    );
    entry.set_header(table(vec![
        ("imag", table(vec![("version", text("1.2.3"))])),
        ("bare", HeaderValue::Integer(1)),
    ]));
    assert_eq!(
        entry.verify(),
        Err(StoreError::VerificationFailed(VerificationFailure::NonTableInBaseTable))
    );
    entry.set_header(table(vec![
        ("imag", table(vec![("version", text("1.2.3-alpha.1+build"))])),
        ("tag", table(vec![("values", HeaderValue::Array(vec![]))])),
    ]));
    assert_eq!(entry.verify(), Ok(()));
}

#[test]
fn only_tables_at_the_root() {
    assert_eq!(has_only_tables(&table(vec![])), Ok(true));
    assert_eq!(has_only_tables(&table(vec![("a", table(vec![]))])), Ok(true));
    assert_eq!(has_only_tables(&table(vec![("a", table(vec![])), ("b", text("x"))])), Ok(false));
    assert!(has_only_tables(&text("x")).is_err());
}

#[test]
fn error_names() {
    assert_eq!(StoreError::Locked.name(), "Locked");
    assert_eq!(
        StoreError::VerificationFailed(VerificationFailure::MissingVersionInfo).name(),
        "MissingVersionInfo"
    );
}

#[test]
fn header_and_content_are_changed_in_place() {
    let mut entry = Entry::new(id("x"));
    entry.get_content_mut().push_str("added");
    assert_eq!(entry.get_content(), "added");
    *entry.get_header_mut() = table(vec![("imag", table(vec![("version", text("2.0.0"))]))]);
    assert_eq!(entry.get_header(), &table(vec![("imag", table(vec![("version", text("2.0.0"))]))]));
    assert_eq!(entry.get_location(), &id("x"));
    assert_eq!(entry.to_str().unwrap(), "---\n[imag]\nversion = '2.0.0'\n---\nadded");
}

#[test]
fn round_trip_keeps_trailing_blank_lines() {
    for buf in [
        "---\n[imag]\nversion = '0.0.3'\n---\n",
        "---\n[imag]\nversion = '0.0.3'\n---\n\n",
        "---\n[imag]\nversion = '0.0.3'\n---\nHai\n\n\n",
        "---\n[imag]\nversion = '0.0.3'\n\n[tag]\nvalues = []\n---\n---\nnot a delimiter\n",
    ] {
        let entry = Entry::from_str(id("r"), buf).unwrap();
        assert_eq!(entry.to_str().unwrap(), buf);
    }
}

#[test]
fn header_values_are_looked_up() {
    let h = table(vec![("a", text("first")), ("b", HeaderValue::Boolean(true)), ("a", text("second"))]);
    assert_eq!(h.get("a"), Some(&text("second")));
    assert_eq!(h.last_index_of("a"), Some(2));
    assert_eq!(h.last_index_of("c"), None);
    assert_eq!(h.get("b").and_then(|v| v.as_bool()), Some(true));
    assert_eq!(h.get("a").and_then(|v| v.as_str()), Some("second"));
    assert_eq!(h.get("c"), None);
    assert_eq!(text("x").get("a"), None);
    assert!(h.is_table());
    assert!(!text("x").is_table());
    assert_eq!(text("x").as_bool(), None);
    assert_eq!(HeaderValue::Integer(1).as_str(), None);
    assert_eq!(HeaderValue::table_of(String::from("k"), text("v")), table(vec![("k", text("v"))]));
    let copy = h.clone();
    assert_eq!(copy, h);
}

#[test]
fn a_name_that_occurs_twice_counts_once() {
    let version = || table(vec![("version", text("1.0.0"))]);
    let shadowed = table(vec![("imag", text("no table")), ("imag", version())]);
    let shadowing = table(vec![("imag", version()), ("imag", text("no table"))]);
    let hidden_scalar = table(vec![("x", HeaderValue::Integer(1)), ("imag", version()), ("x", table(vec![]))]);
    let late_scalar = table(vec![("x", table(vec![])), ("imag", version()), ("x", HeaderValue::Integer(1))]);
    let expected = [
        (shadowed, Ok(())),
        (shadowing, Err(StoreError::VerificationFailed(VerificationFailure::MissingMainSection))),
        (hidden_scalar, Ok(())),
        (late_scalar, Err(StoreError::VerificationFailed(VerificationFailure::NonTableInBaseTable))),
    ];
    for (header, verdict) in expected {
        let entry = Entry::from_parts(id("d"), header, String::new());
        assert_eq!(entry.verify(), verdict);
        match entry.to_str() {
            Ok(written) => {
                let read = Entry::from_str(id("d"), &written).unwrap();
                assert_eq!(read.verify(), verdict);
            }
            Err(_) => assert!(verdict.is_err()),
        }
    }
    assert_eq!(has_only_tables(&table(vec![("a", text("x")), ("a", table(vec![]))])), Ok(true));
    assert_eq!(has_only_tables(&table(vec![("a", table(vec![])), ("a", text("x"))])), Ok(false));
    let mut twice = table(vec![("k", text("one")), ("other", table(vec![])), ("k", text("two"))]);
    assert_eq!(twice.remove_key("k"), Some(text("two")));
    assert_eq!(twice, table(vec![("other", table(vec![]))]));
    assert_eq!(twice.remove_key("k"), None);
    let mut scalar = text("s");
    assert_eq!(scalar.remove_key("k"), None);
    assert_eq!(scalar, text("s"));
}

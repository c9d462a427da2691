use imag::error::StoreError;
use imag::file_abstraction::InMemoryFileAbstraction;
use imag::hasher::Hasher;
use imag::mail::config::{MailAccountConfig, MailConfig};
use imag::mail::header::MailHeader;
use imag::mail::store::{mail_file, mail_id, MailError, MailStore};
use imag::reference::{Config, Ref, RefError};
use imag::codec::header_read;
use imag::store::{LocationState, Store, StoreEntryStatus};
use imag::storeid::StoreId;
use imag::strmap::StringMap;
use imag::value::HeaderValue;

fn get_store() -> Store<InMemoryFileAbstraction> {
    let backend = InMemoryFileAbstraction::new();
    Store::new_with_backend(String::from("/"), LocationState::Directory, &None, backend).unwrap()
}

fn id(s: &str) -> StoreId {
    StoreId::new(String::from(s)).unwrap()
}

struct Plain;

impl Hasher for Plain {
    fn name() -> &'static str {
        "plain"
    }

    fn hash(content: &str) -> Option<String> {
        Some(String::from(content))
    }
}

fn account(name: &str, fetch: Option<&str>, postfetch: Option<&str>, send: Option<&str>, postsend: Option<&str>) -> MailAccountConfig {
    MailAccountConfig {
        name: String::from(name),
        outgoingbox: String::from("/mail/out"),
        draftbox: String::from("/mail/draft"),
        sentbox: String::from("/mail/sent"),
        maildirroot: String::from("/mail"),
        fetchcommand: fetch.map(String::from),
        postfetchcommand: postfetch.map(String::from),
        sendcommand: send.map(String::from),
        postsendcommand: postsend.map(String::from),
    }
}

fn config() -> MailConfig {
    MailConfig::new(
        String::from("private"),
        vec![
            account("private", Some("fetch-private"), None, None, Some("after-send-private")),
            account("work", None, Some("after-fetch-work"), Some("send-work"), None),
            account("work", Some("shadowed"), None, None, None),
        ],
        String::from("fetch-all"),
        Some(String::from("after-fetch-all")),
        String::from("send-all"),
        None,
    )
}

#[test]
fn mail_config_getters() {
    let c = config();
    assert_eq!(c.default_account(), "private");
    assert_eq!(c.accounts().len(), 3);
    assert_eq!(c.accounts()[1].name, "work");
    assert_eq!(c.fetchcommand(), "fetch-all");
    assert_eq!(c.postfetchcommand(), Some(&String::from("after-fetch-all")));
    assert_eq!(c.sendcommand(), "send-all");
    assert_eq!(c.postsendcommand(), None);
}

#[test]
fn mail_config_commands_for_accounts() {
    let c = config();
    assert_eq!(c.fetchcommand_for_account("private"), "fetch-private");
    assert_eq!(c.fetchcommand_for_account("work"), "fetch-all");
    assert_eq!(c.fetchcommand_for_account("unknown"), "fetch-all");
    assert_eq!(c.postfetchcommand_for_account("private"), Some(&String::from("after-fetch-all")));
    assert_eq!(c.postfetchcommand_for_account("work"), Some(&String::from("after-fetch-work")));
    assert_eq!(c.postfetchcommand_for_account("unknown"), Some(&String::from("after-fetch-all")));
    assert_eq!(c.sendcommand_for_account("private"), "send-all");
    assert_eq!(c.sendcommand_for_account("work"), "send-work");
    assert_eq!(c.sendcommand_for_account(""), "send-all");
    assert_eq!(c.postsendcommand_for_account("private"), Some(&String::from("after-send-private")));
    assert_eq!(c.postsendcommand_for_account("work"), None);
    assert_eq!(c.postsendcommand_for_account("unknown"), None);
}

#[test]
fn mail_header_fields() {
    let mut fields = StringMap::new();
    fields.insert(String::from("From"), String::from("alice@example.org"));
    fields.insert(String::from("Subject"), String::from("Hi"));
    fields.insert(String::from("Message-ID"), String::from("<1@example.org>"));
    fields.insert(String::from("Subject"), String::from("Hello"));
    let header = MailHeader::new(fields);
    assert_eq!(header.get_from(), Some(String::from("alice@example.org")));
    assert_eq!(header.get_to(), None);
    assert_eq!(header.get_subject(), Some(String::from("Hello")));
    assert_eq!(header.get_message_id(), Some(String::from("<1@example.org>")));
    assert_eq!(header.get_in_reply_to(), None);
    assert_eq!(header.get_field("X-Other"), None);
}

#[test]
fn string_map_behaves_as_a_map() {
    let mut m: StringMap<String> = StringMap::new();
    assert_eq!(m.len(), 0);
    m.insert(String::from("a"), String::from("1"));
    m.insert(String::from("b"), String::from("2"));
    m.insert(String::from("a"), String::from("3"));
    assert_eq!(m.len(), 2);
    assert!(m.contains_key("a"));
    assert!(!m.contains_key("c"));
    assert_eq!(m.get("a"), Some(&String::from("3")));
    assert_eq!(m.key_at(1), "b");
    assert_eq!(m.value_at(1), "2");
    assert_eq!(m.remove("a"), Some(String::from("3")));
    assert_eq!(m.remove("a"), None);
    assert_eq!(m.len(), 1);
    assert!(m.capacity() >= 1);
    m.shrink_to_fit();
    assert_eq!(m.get("b"), Some(&String::from("2")));
}

#[test]
fn mail_in_a_store() {
    let mut store = get_store();
    let mut collections = StringMap::new();
    collections.insert(String::from("inbox"), String::from("/mail"));
    let config = Config::new(collections);
    assert_eq!(mail_id("<1@example.org>"), Ok(id("mail/<1@example.org>")));
    assert_eq!(mail_id("/abs"), Err(StoreError::InvalidId));
    assert!(matches!(store.get_mail_from_path("<1@example.org>"), Ok(None)));
    let handle = store.retrieve_mail_from_path::<Plain>(
        "<1@example.org>",
        "cur/1",
        "inbox",
        &config,
        Some("mail text"),
    )
    .unwrap();
    assert_eq!(handle.get_location(), &id("mail/<1@example.org>"));
    assert_eq!(handle.entry().is_ref(), Ok(true));
    assert_eq!(
        header_read(handle.get_header(), "mail.message-id"),
        Ok(Some(HeaderValue::String(String::from("<1@example.org>"))))
    );
    assert_eq!(mail_file(handle.entry()), Err(MailError::HeaderFieldMissing));
    store.release(handle);
    let found = store.get_mail_from_path("<1@example.org>").unwrap().unwrap();
    assert_eq!(found.entry().is_ref(), Ok(true));
    store.release(found);

    let missing = store.retrieve_mail_from_path::<Plain>("<2@example.org>", "cur/2", "inbox", &config, None);
    assert_eq!(missing.err(), Some(MailError::Ref(RefError::FileMissing)));
    assert_eq!(store.status_of(&id("mail/<2@example.org>")), Some(StoreEntryStatus::Present));
    let plain = store.get_mail_from_path("<2@example.org>");
    assert_eq!(plain.err(), Some(MailError::NotAReference));
    assert_eq!(store.status_of(&id("mail/<2@example.org>")), Some(StoreEntryStatus::Present));
    assert!(matches!(store.get_mail("<3@example.org>"), Ok(None)));
    let other = store.create("notes/plain").unwrap();
    store.release(other);
    let mut mails = store.all_mails().unwrap();
    let mut found = Vec::new();
    while let Some(item) = mails.next() {
        found.push(item.unwrap().local_display_string());
    }
    found.sort();
    assert_eq!(found, vec!["mail/<1@example.org>", "mail/<2@example.org>"]);
}

//! Entries that refer to files outside the store.
use vstd::prelude::*;
use crate::codec::{
    header_insert, header_read, header_read_result, insert_supported, query_insert,
    query_outcome, QueryError,
};
use crate::entry::{Entry, EntryView};
use crate::hasher::Hasher;
use crate::storeid::{join, join_paths};
use crate::strmap::StringMap;
use crate::value::{without_key, HeaderValue, Tree};

verus! {

/// What can go wrong with a reference.
#[derive(Debug, Clone, Copy, PartialEq, Eq, Structural)]
pub enum RefError {
    /// The configuration names no path for the collection.
    CollectionNotConfigured,
    /// The header lacks a field of the reference.
    HeaderFieldMissing,
    /// A field of the reference holds a value of the wrong type.
    HeaderTypeError,
    /// The entry is a reference already.
    AlreadyARef,
    /// The file that is referred to does not exist.
    FileMissing,
    /// The file that is referred to could not be hashed.
    HashFailed,
    /// The header could not be read or changed at the path of a field.
    HeaderAccessFailed,
}

/// For each collection of files, by name, the path at which it lives.
pub struct Config(pub StringMap<String>);

impl View for Config {
    type V = Map<Seq<char>, Seq<char>>;

    open spec fn view(&self) -> Map<Seq<char>, Seq<char>> {
        self.0@
    }
}

impl Config {
    /// The collections are in order: no name occurs twice.
    pub open spec fn wf(&self) -> bool {
        self.0.wf()
    }

    /// The configuration with the collections `map`.
    pub fn new(map: StringMap<String>) -> (r: Config)
        ensures
            r@ == map@,
            r.wf() == map.wf(),
    {
        Config(map)
    }

    /// The path of the collection `name`.
    pub fn get(&self, name: &str) -> (r: Option<&String>)
        requires
            self.wf(),
        ensures
            match r {
                Some(path) => self@.contains_key(name@) && self@[name@] == path@,
                None => !self@.contains_key(name@),
            },
    {
        self.0.get(name)
    }
}

/// The section that a header holds for a reference: the collection, the hash under the name
/// of the hasher, and the path within the collection.
pub open spec fn header_section(
    hash: Seq<char>,
    hashname: Seq<char>,
    relpath: Seq<char>,
    collection: Seq<char>,
) -> Tree {
    Tree::Table(
        seq![
            ("collection"@, Tree::Text(collection)),
            ("hash"@, Tree::Table(seq![(hashname, Tree::Text(hash))])),
            ("relpath"@, Tree::Text(relpath)),
        ],
    )
}

/// Makes the section that a header holds for a reference to the file at `relpath` in the
/// collection `collection`, with the hash `hash` that the hasher `hashname` gave.
pub fn make_header_section(hash: String, hashname: &str, relpath: &str, collection: &str) -> (r:
    Result<HeaderValue, RefError>)
    ensures
        r is Ok,
        r->Ok_0@ == header_section(hash@, hashname@, relpath@, collection@),
{
    let hash_table = HeaderValue::table_of(hashname.to_owned(), HeaderValue::String(hash));
    let mut entries: Vec<(String, HeaderValue)> = Vec::new();
    entries.push(("collection".to_owned(), HeaderValue::String(collection.to_owned())));
    entries.push(("hash".to_owned(), hash_table));
    entries.push(("relpath".to_owned(), HeaderValue::String(relpath.to_owned())));
    let section = HeaderValue::Table(entries);
    proof {
        crate::value::lemma_table_view(section);
        assert(section@->Table_0 =~= header_section(
            hash@,
            hashname@,
            relpath@,
            collection@,
        )->Table_0);
    }
    Ok(section)
}

/// The place of the file at `path` in the collection `collection_name`: the path of the
/// collection, and `path` appended to it. Fails where the collection is not configured.
pub fn get_file_path(config: &Config, collection_name: &str, path: &str) -> (r: Result<
    String,
    RefError,
>)
    requires
        config.wf(),
    ensures
        match r {
            Ok(p) => config@.contains_key(collection_name@) && p@ == join(
                config@[collection_name@],
                path@,
            ),
            Err(e) => e == RefError::CollectionNotConfigured && !config@.contains_key(
                collection_name@,
            ),
        },
{
    match config.get(collection_name) {
        Some(base) => Ok(join_paths(base.as_str(), path)),
        None => Err(RefError::CollectionNotConfigured),
    }
}

/// The text that the header holds at `path`. It is an error if the header holds nothing
/// there, or something that is no string.
pub open spec fn stored_text(h: Tree, path: Seq<char>) -> Result<Seq<char>, RefError> {
    match header_read_result(h, path) {
        Ok(Some(Tree::Text(s))) => Ok(s),
        Ok(Some(_)) => Err(RefError::HeaderTypeError),
        Ok(None) => Err(RefError::HeaderFieldMissing),
        Err(_) => Err(RefError::HeaderAccessFailed),
    }
}

/// The view of a text or an error.
pub open spec fn text_result(r: Result<String, RefError>) -> Result<Seq<char>, RefError> {
    match r {
        Ok(s) => Ok(s@),
        Err(e) => Err(e),
    }
}

/// The text that `header` holds at `path`.
fn read_text(header: &HeaderValue, path: &str) -> (r: Result<String, RefError>)
    ensures
        text_result(r) == stored_text(header@, path@),
{
    match header_read(header, path) {
        Ok(Some(v)) => match v.as_str() {
            Some(s) => Ok(s.to_owned()),
            None => Err(RefError::HeaderTypeError),
        },
        Ok(None) => Err(RefError::HeaderFieldMissing),
        Err(_) => Err(RefError::HeaderAccessFailed),
    }
}

/// Whether the header marks its entry as a reference. A header without the mark does not.
pub open spec fn is_ref_result(h: Tree) -> Result<bool, RefError> {
    match header_read_result(h, "ref.is_ref"@) {
        Ok(Some(Tree::Boolean(b))) => Ok(b),
        Ok(Some(_)) => Err(RefError::HeaderTypeError),
        Ok(None) => Ok(false),
        Err(_) => Err(RefError::HeaderAccessFailed),
    }
}

/// Where a header keeps the hash that the hasher `name` gave.
pub open spec fn hash_path(name: Seq<char>) -> Seq<char> {
    "ref.hash."@ + name
}

/// The place of the file that a header refers to: the path that the configuration gives
/// for the collection, and the path within the collection appended to it.
pub open spec fn referenced_file_result(h: Tree, config: Map<Seq<char>, Seq<char>>) -> Result<
    Seq<char>,
    RefError,
> {
    match stored_text(h, "ref.collection"@) {
        Err(e) => Err(e),
        Ok(collection) => match stored_text(h, "ref.relpath"@) {
            Err(e) => Err(e),
            Ok(relpath) => if config.contains_key(collection) {
                Ok(join(config[collection], relpath))
            } else {
                Err(RefError::CollectionNotConfigured)
            },
        },
    }
}

/// The place of the file that `entry` refers to.
pub fn referenced_file(entry: &Entry, config: &Config) -> (r: Result<String, RefError>)
    requires
        config.wf(),
    ensures
        text_result(r) == referenced_file_result(entry@.header, config@),
{
    let collection = match read_text(entry.get_header(), "ref.collection") {
        Err(e) => {
            return Err(e);
        },
        Ok(c) => c,
    };
    let relpath = match read_text(entry.get_header(), "ref.relpath") {
        Err(e) => {
            return Err(e);
        },
        Ok(p) => p,
    };
    get_file_path(config, collection.as_str(), relpath.as_str())
}

/// Whether `content` still has the hash that the header keeps for the hasher `H`. It is an
/// error if the header does not say which file it refers to, if it keeps no such hash, or if
/// `content` cannot be hashed.
pub open spec fn hash_valid_result<H: Hasher>(
    h: Tree,
    config: Map<Seq<char>, Seq<char>>,
    content: Seq<char>,
) -> Result<bool, RefError> {
    match referenced_file_result(h, config) {
        Err(e) => Err(e),
        Ok(_) => match stored_text(h, hash_path(H::name_text())) {
            Err(e) => Err(e),
            Ok(stored) => match H::hash_text(content) {
                Some(hash) => Ok(hash == stored),
                None => Err(RefError::HashFailed),
            },
        },
    }
}

/// The header of an entry that was made a reference: the section of the reference is
/// inserted, and then the mark.
pub open spec fn with_ref_section(h: Tree, section: Tree) -> Tree {
    query_insert(query_insert(h, "ref"@, section).0, "ref.is_ref"@, Tree::Boolean(true)).0
}

/// What `make_ref` returns for an entry with the header `h`. In turn: the entry is no
/// reference yet, unless `force` is set; the collection is configured; the file exists; it
/// can be hashed; the section of the reference and the mark can be inserted.
pub open spec fn make_ref_result<H: Hasher>(
    h: Tree,
    relpath: Seq<char>,
    collection: Seq<char>,
    config: Map<Seq<char>, Seq<char>>,
    content: Option<Seq<char>>,
    force: bool,
) -> Result<(), RefError> {
    if !force && is_ref_result(h) is Err {
        Err(is_ref_result(h)->Err_0)
    } else if !force && is_ref_result(h) == Ok::<bool, RefError>(true) {
        Err(RefError::AlreadyARef)
    } else if !config.contains_key(collection) {
        Err(RefError::CollectionNotConfigured)
    } else if content is None {
        Err(RefError::FileMissing)
    } else if H::hash_text(content->Some_0) is None {
        Err(RefError::HashFailed)
    } else {
        let section = header_section(
            H::hash_text(content->Some_0)->Some_0,
            H::name_text(),
            relpath,
            collection,
        );
        let first = query_insert(h, "ref"@, section);
        if !(h is Table) || first.1 is None {
            Err(RefError::HeaderAccessFailed)
        } else if !(first.0 is Table) || query_insert(
            first.0,
            "ref.is_ref"@,
            Tree::Boolean(true),
        ).1 is None {
            Err(RefError::HeaderAccessFailed)
        } else {
            Ok(())
        }
    }
}

/// The view of optional borrowed text.
pub open spec fn content_view(content: Option<&str>) -> Option<Seq<char>> {
    match content {
        Some(c) => Some(c@),
        None => None,
    }
}

/// What an entry that may refer to a file offers.
pub trait Ref {
    /// Whether this is a reference.
    fn is_ref(&self) -> Result<bool, RefError>;

    /// The path of the file that this refers to, within its collection.
    fn get_path(&self) -> Result<String, RefError>;

    /// The hash that the hasher `H` gave for the file that this refers to.
    fn get_hash<H: Hasher>(&self) -> Result<String, RefError>;

    /// Whether the file that this refers to, whose content is `content`, still has the hash
    /// that is kept for it.
    fn hash_valid<H: Hasher>(&self, config: &Config, content: &str) -> Result<bool, RefError>
        requires
            config.wf(),
    ;

    /// Makes this an ordinary entry again.
    fn remove_ref(&mut self) -> Result<(), RefError>;

    /// Makes this a reference to the file at `path` in the collection `collection_name`,
    /// whose content is `content`; without content the file does not exist.
    fn make_ref<H: Hasher>(
        &mut self,
        path: &str,
        collection_name: &str,
        config: &Config,
        content: Option<&str>,
        force: bool,
    ) -> Result<(), RefError>
        requires
            config.wf(),
    ;
}

impl Ref for Entry {
    /// Whether the entry is a reference.
    fn is_ref(&self) -> (r: Result<bool, RefError>)
        ensures
            r == is_ref_result(self@.header),
    {
        match header_read(self.get_header(), "ref.is_ref") {
            Ok(Some(v)) => match v.as_bool() {
                Some(b) => Ok(b),
                None => Err(RefError::HeaderTypeError),
            },
            Ok(None) => Ok(false),
            Err(_) => Err(RefError::HeaderAccessFailed),
        }
    }

    /// The path of the file that the entry refers to, within its collection.
    fn get_path(&self) -> (r: Result<String, RefError>)
        ensures
            text_result(r) == stored_text(self@.header, "ref.relpath"@),
    {
        read_text(self.get_header(), "ref.relpath")
    }

    /// The hash that the hasher `H` gave for the file that the entry refers to, as the
    /// header keeps it.
    fn get_hash<H: Hasher>(&self) -> (r: Result<String, RefError>)
        ensures
            text_result(r) == stored_text(self@.header, hash_path(H::name_text())),
    {
        let mut path = "ref.hash.".to_owned();
        path.append(H::name());
        read_text(self.get_header(), path.as_str())
    }

    /// Whether the file that the entry refers to, whose content is `content`, still has the
    /// hash that the entry keeps.
    fn hash_valid<H: Hasher>(&self, config: &Config, content: &str) -> (r: Result<bool, RefError>)
        ensures
            r == hash_valid_result::<H>(self@.header, config@, content@),
    {
        match referenced_file(self, config) {
            Err(e) => {
                return Err(e);
            },
            Ok(_) => {},
        }
        let stored = match self.get_hash::<H>() {
            Err(e) => {
                return Err(e);
            },
            Ok(s) => s,
        };
        match H::hash(content) {
            Some(hash) => Ok(hash == stored),
            None => Err(RefError::HashFailed),
        }
    }

    /// Makes the entry an ordinary entry again: the section of the reference leaves the
    /// header.
    fn remove_ref(&mut self) -> (r: Result<(), RefError>)
        ensures
            r is Ok,
            final(self)@.header == without_key(old(self)@.header, "ref"@),
            final(self)@.location == old(self)@.location,
            final(self)@.content == old(self)@.content,
    {
        let mut header = self.get_header().clone();
        let _ = header.remove_key("ref");
        self.set_header(header);
        Ok(())
    }

    /// Makes the entry a reference to the file at `path` in the collection
    /// `collection_name`, whose content is `content`; without content the file does not
    /// exist. Fails where the entry is a reference already, unless `force` is set. On success
    /// the header holds the section of the reference and the mark; on failure the entry
    /// stays as it is.
    fn make_ref<H: Hasher>(
        &mut self,
        path: &str,
        collection_name: &str,
        config: &Config,
        content: Option<&str>,
        force: bool,
    ) -> (r: Result<(), RefError>)
        ensures
            r == make_ref_result::<H>(
                old(self)@.header,
                path@,
                collection_name@,
                config@,
                content_view(content),
                force,
            ),
            r is Err ==> final(self)@ == old(self)@,
            r is Ok ==> final(self)@ == (EntryView {
                header: with_ref_section(
                    old(self)@.header,
                    header_section(
                        H::hash_text(content_view(content)->Some_0)->Some_0,
                        H::name_text(),
                        path@,
                        collection_name@,
                    ),
                ),
                ..old(self)@
            }),
    {
        if !force {
            match self.is_ref() {
                Err(e) => {
                    return Err(e);
                },
                Ok(true) => {
                    return Err(RefError::AlreadyARef);
                },
                Ok(false) => {},
            }
        }
        match get_file_path(config, collection_name, path) {
            Err(e) => {
                return Err(e);
            },
            Ok(_) => {},
        }
        let content = match content {
            None => {
                return Err(RefError::FileMissing);
            },
            Some(c) => c,
        };
        let hash = match H::hash(content) {
            None => {
                return Err(RefError::HashFailed);
            },
            Some(h) => h,
        };
        let section = match make_header_section(hash, H::name(), path, collection_name) {
            Err(e) => {
                return Err(e);
            },
            Ok(s) => s,
        };
        proof {
            lemma_ref_paths();
        }
        let mut header = self.get_header().clone();
        match header_insert(&mut header, "ref", &section) {
            Err(_) => {
                return Err(RefError::HeaderAccessFailed);
            },
            Ok(_) => {},
        }
        match header_insert(&mut header, "ref.is_ref", &HeaderValue::Boolean(true)) {
            Err(_) => Err(RefError::HeaderAccessFailed),
            Ok(_) => {
                self.set_header(header);
                Ok(())
            },
        }
    }
}

/// The two paths at which a reference is inserted are supported: neither addresses an item
/// of an array, and neither has more than two names.
proof fn lemma_ref_paths()
    ensures
        !crate::codec::has_index("ref"@),
        crate::codec::dots("ref"@) <= 1,
        !crate::codec::has_index("ref.is_ref"@),
        crate::codec::dots("ref.is_ref"@) <= 1,
{
    reveal_strlit("ref");
    reveal_strlit("ref.is_ref");
    crate::codec::lemma_no_bracket_no_index("ref"@, 0, 0);
    crate::codec::lemma_no_bracket_no_index("ref.is_ref"@, 0, 0);
    crate::codec::lemma_dots_at_most_one("ref"@, -1);
    crate::codec::lemma_dots_at_most_one("ref.is_ref"@, 3);
}

} // verus!

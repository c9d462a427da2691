//! Header trees as TOML text, read and written by the `toml` crate, and access to their
//! nodes by path, done by the `toml-query` crate.
use vstd::prelude::*;
use toml_query::delete::TomlValueDeleteExt;
use toml_query::insert::TomlValueInsertExt;
use toml_query::read::TomlValueReadExt;
use crate::text::chars_of;
use crate::value::{HeaderValue, Tree};

verus! {

/// A TOML document as the `toml` crate holds it.
#[verifier::external_type_specification]
#[verifier::external_body]
pub struct ExTomlValue(toml::Value);

/// The tree that the `toml` crate reads from `text`, where it accepts `text`.
pub uninterp spec fn toml_parse(text: Seq<char>) -> Option<Tree>;

/// The text that the `toml` crate's pretty printer writes for `tree`, where it can write it.
pub uninterp spec fn toml_pretty(tree: Tree) -> Option<Seq<char>>;

/// Copies a document of the `toml` crate, `toml::Value`, into a tree of this library, node by
/// node. A floating-point number and a date are kept as the text that the crate writes for
/// them. Nothing is claimed of the result.
#[verifier::external_body]
fn from_toml(v: &toml::Value) -> HeaderValue {
    match v {
        toml::Value::String(s) => HeaderValue::String(s.clone()),
        toml::Value::Integer(i) => HeaderValue::Integer(*i),
        toml::Value::Float(x) => HeaderValue::Float(x.to_string()),
        toml::Value::Boolean(b) => HeaderValue::Boolean(*b),
        toml::Value::Datetime(d) => HeaderValue::Datetime(d.to_string()),
        toml::Value::Array(a) => HeaderValue::Array(a.iter().map(from_toml).collect()),
        toml::Value::Table(t) => HeaderValue::Table(t.iter().map(|(k, x)| (k.clone(), from_toml(x))).collect()),
    }
}

/// Copies a tree of this library into a document of the `toml` crate, `toml::Value`, node by
/// node. A number or a date whose text does not read as one is handed over as a string.
/// Nothing is claimed of the result.
#[verifier::external_body]
fn to_toml(v: &HeaderValue) -> toml::Value {
    match v {
        HeaderValue::String(s) => s.clone().into(),
        HeaderValue::Integer(i) => (*i).into(),
        HeaderValue::Float(s) => s.parse().map_or(s.clone().into(), toml::Value::Float),
        HeaderValue::Boolean(b) => (*b).into(),
        HeaderValue::Datetime(s) => s.parse().map_or(s.clone().into(), toml::Value::Datetime),
        HeaderValue::Array(a) => toml::Value::Array(a.iter().map(to_toml).collect()),
        HeaderValue::Table(t) => toml::Value::Table(t.iter().map(|(k, x)| (k.clone(), to_toml(x))).collect()),
    }
}

/// Reads `text` as TOML with `toml::from_str`. The result is what the crate reads from the
/// text, and nothing where it rejects the text.
#[verifier::external_body]
pub(crate) fn parse_header(text: &str) -> (r: Option<HeaderValue>)
    ensures
        match r {
            Some(v) => toml_parse(text@) == Some(v@),
            None => toml_parse(text@) is None,
        },
{
    match toml::from_str::<toml::Value>(text) {
        Ok(v) => Some(from_toml(&v)),
        Err(_) => None,
    }
}

/// Writes `header` as TOML with `toml::ser::to_string_pretty`. The result is what the crate
/// writes for the tree, and nothing where it cannot write it.
#[verifier::external_body]
pub(crate) fn pretty_header(header: &HeaderValue) -> (r: Option<String>)
    ensures
        match r {
            Some(s) => toml_pretty(header@) == Some(s@),
            None => toml_pretty(header@) is None,
        },
{
    toml::ser::to_string_pretty(&to_toml(header)).ok()
}

/// What reading or changing a header by a path can fail with.
#[derive(Debug, Clone, Copy, PartialEq, Eq, Structural)]
pub enum QueryError {
    /// The path is of a form that is not supported here: it addresses an item of an array,
    /// or it is too long for the operation.
    UnsupportedPath,
    /// The path does not fit the header.
    Failed,
}

/// What `toml-query` finds in `doc` at `path`: nothing where the path leads nowhere, and no
/// result where the path does not fit the document.
pub uninterp spec fn query_read(doc: Tree, path: Seq<char>) -> Option<Option<Tree>>;

/// What `toml-query` makes of `doc` when `value` is inserted at `path`, and what it reports:
/// the value that was there before, if any, or no result where it fails.
pub uninterp spec fn query_insert(doc: Tree, path: Seq<char>, value: Tree) -> (
    Tree,
    Option<Option<Tree>>,
);

/// What `toml-query` makes of `doc` when what is at `path` is deleted, and what it reports:
/// the value that was deleted, if any, or no result where it fails.
pub uninterp spec fn query_delete(doc: Tree, path: Seq<char>) -> (Tree, Option<Option<Tree>>);

/// Whether the name of `path` between `start` and `end` is written as an index: it begins
/// with `[` and ends with `]`.
pub open spec fn bracketed(path: Seq<char>, start: int, end: int) -> bool {
    start < end && path[start] == '[' && path[end - 1] == ']'
}

/// Whether a name of `path` from position `pos` on is written as an index, where the name
/// that `pos` lies in began at `start`. The names of a path stand between its separators.
pub open spec fn has_index_from(path: Seq<char>, start: int, pos: int) -> bool
    decreases path.len() - pos,
{
    if pos >= path.len() {
        bracketed(path, start, path.len() as int)
    } else if path[pos] == '.' {
        bracketed(path, start, pos) || has_index_from(path, pos + 1, pos + 1)
    } else {
        has_index_from(path, start, pos + 1)
    }
}

/// Whether `path` addresses an item of an array: whether one of its names is written as an
/// index.
pub open spec fn has_index(path: Seq<char>) -> bool {
    has_index_from(path, 0, 0)
}

/// A path that holds no `[` addresses no item of an array.
pub proof fn lemma_no_bracket_no_index(path: Seq<char>, start: int, pos: int)
    requires
        0 <= start <= pos,
        forall|i: int| 0 <= i < path.len() ==> path[i] != '[',
    ensures
        !has_index_from(path, start, pos),
    decreases path.len() - pos,
{
    if pos < path.len() {
        if path[pos] == '.' {
            lemma_no_bracket_no_index(path, pos + 1, pos + 1);
        } else {
            lemma_no_bracket_no_index(path, start, pos + 1);
        }
    }
}

/// The view of what a query reports.
pub open spec fn found_view(r: Option<Option<HeaderValue>>) -> Option<Option<Tree>> {
    match r {
        Some(Some(v)) => Some(Some(v@)),
        Some(None) => Some(None),
        None => None,
    }
}

/// Reads what `doc` holds at `path` with `toml-query`'s `read`. A path with a name that is
/// written as an index is left out, since `read` does not return on some of them.
#[verifier::external_body]
fn toml_query_read(doc: &HeaderValue, path: &str) -> (r: Option<Option<HeaderValue>>)
    requires
        !has_index(path@),
    ensures
        found_view(r) == query_read(doc@, path@),
{
    to_toml(doc).read(path).ok().map(|found| found.map(from_toml))
}

/// Inserts `value` into `doc` at `path` with `toml-query`'s `insert`. Left out are the
/// inputs on which `insert` may not return: a document that is no table, a path of more
/// than two names, and a path with a name that is written as an index.
#[verifier::external_body]
fn toml_query_insert(doc: &mut HeaderValue, path: &str, value: &HeaderValue) -> (r: Option<
    Option<HeaderValue>,
>)
    requires
        old(doc)@ is Table,
        !has_index(path@),
        dots(path@) <= 1,
    ensures
        (final(doc)@, found_view(r)) == query_insert(old(doc)@, path@, value@),
{
    let mut t = to_toml(doc);
    let r = t.insert(path, to_toml(value)).ok().map(|old| old.map(|v| from_toml(&v)));
    *doc = from_toml(&t);
    r
}

/// Deletes what `doc` holds at `path` with `toml-query`'s `delete`. A path with a name that
/// is written as an index is left out, since `delete` does not return on some of them.
#[verifier::external_body]
fn toml_query_delete(doc: &mut HeaderValue, path: &str) -> (r: Option<Option<HeaderValue>>)
    requires
        !has_index(path@),
    ensures
        (final(doc)@, found_view(r)) == query_delete(old(doc)@, path@),
{
    let mut t = to_toml(doc);
    let r = t.delete(path).ok().map(|old| old.map(|v| from_toml(&v)));
    *doc = from_toml(&t);
    r
}

/// The number of separators in a path.
pub open spec fn dots(path: Seq<char>) -> nat
    decreases path.len(),
{
    if path.len() == 0 {
        0
    } else if path.last() == '.' {
        dots(path.drop_last()) + 1
    } else {
        dots(path.drop_last())
    }
}

/// A path without a separator holds none.
pub proof fn lemma_no_dots(path: Seq<char>)
    requires
        forall|i: int| 0 <= i < path.len() ==> path[i] != '.',
    ensures
        dots(path) == 0,
    decreases path.len(),
{
    if path.len() > 0 {
        lemma_no_dots(path.drop_last());
    }
}

/// A path that holds a separator at no place but `k` holds one separator at most.
pub proof fn lemma_dots_at_most_one(path: Seq<char>, k: int)
    requires
        forall|i: int| 0 <= i < path.len() && i != k ==> path[i] != '.',
    ensures
        dots(path) <= 1,
    decreases path.len(),
{
    if path.len() > 0 {
        if k == path.len() - 1 {
            lemma_no_dots(path.drop_last());
        } else {
            lemma_dots_at_most_one(path.drop_last(), k);
        }
    }
}

/// Whether `path` addresses an item of an array, and how many separators it holds.
fn path_shape(path: &str) -> (r: (bool, usize))
    ensures
        r.0 == has_index(path@),
        r.1 == dots(path@),
{
    let chars = chars_of(path);
    let n = chars.len();
    let mut indexed = false;
    let mut count: usize = 0;
    let mut start: usize = 0;
    let mut i: usize = 0;
    proof {
        assert(chars@.take(0) =~= Seq::<char>::empty());
    }
    while i < n
        invariant
            chars@ == path@,
            n == chars@.len(),
            start <= i <= n,
            has_index(path@) == (indexed || has_index_from(path@, start as int, i as int)),
            count == dots(chars@.take(i as int)),
            count <= i,
        decreases n - i,
    {
        let ghost before = chars@.take(i as int);
        let ghost after = chars@.take(i as int + 1);
        proof {
            assert(after.drop_last() =~= before);
            assert(after.last() == chars@[i as int]);
        }
        if chars[i] == '.' {
            if start < i && chars[start] == '[' && chars[i - 1] == ']' {
                indexed = true;
            }
            count = count + 1;
            start = i + 1;
        }
        i = i + 1;
    }
    proof {
        assert(chars@.take(n as int) =~= chars@);
    }
    if start < n && chars[start] == '[' && chars[n - 1] == ']' {
        indexed = true;
    }
    (indexed, count)
}

/// What `header_read` returns.
pub open spec fn header_read_result(header: Tree, path: Seq<char>) -> Result<
    Option<Tree>,
    QueryError,
> {
    if has_index(path) {
        Err(QueryError::UnsupportedPath)
    } else {
        match query_read(header, path) {
            Some(found) => Ok(found),
            None => Err(QueryError::Failed),
        }
    }
}

/// The outcome of a query, where the path is supported.
pub open spec fn query_outcome(found: Option<Option<Tree>>) -> Result<Option<Tree>, QueryError> {
    match found {
        Some(found) => Ok(found),
        None => Err(QueryError::Failed),
    }
}

/// The view of the result of an operation on a header.
pub open spec fn result_view(r: Result<Option<HeaderValue>, QueryError>) -> Result<
    Option<Tree>,
    QueryError,
> {
    match r {
        Ok(Some(v)) => Ok(Some(v@)),
        Ok(None) => Ok(None),
        Err(e) => Err(e),
    }
}

/// What `header` holds at `path`, a sequence of names with `.` between them. Nothing where
/// the path leads nowhere. A path that addresses an item of an array is not supported.
pub fn header_read(header: &HeaderValue, path: &str) -> (r: Result<
    Option<HeaderValue>,
    QueryError,
>)
    ensures
        result_view(r) == header_read_result(header@, path@),
{
    let shape = path_shape(path);
    if shape.0 {
        return Err(QueryError::UnsupportedPath);
    }
    match toml_query_read(header, path) {
        Some(found) => Ok(found),
        None => Err(QueryError::Failed),
    }
}

/// Whether `header_insert` supports the path on the header.
pub open spec fn insert_supported(header: Tree, path: Seq<char>) -> bool {
    header is Table && !has_index(path) && dots(path) <= 1
}

/// Puts `value` into `header` at `path`, one name or two names with `.` between them, and
/// returns what was there before. Supported are headers that are tables; without support
/// the header stays as it is.
pub fn header_insert(header: &mut HeaderValue, path: &str, value: &HeaderValue) -> (r: Result<
    Option<HeaderValue>,
    QueryError,
>)
    ensures
        !insert_supported(old(header)@, path@) ==> r == Err::<Option<HeaderValue>, QueryError>(
            QueryError::UnsupportedPath,
        ) && final(header)@ == old(header)@,
        insert_supported(old(header)@, path@) ==> final(header)@ == query_insert(
            old(header)@,
            path@,
            value@,
        ).0 && result_view(r) == query_outcome(query_insert(old(header)@, path@, value@).1),
{
    let shape = path_shape(path);
    if shape.0 || shape.1 > 1 || !header.is_table() {
        return Err(QueryError::UnsupportedPath);
    }
    match toml_query_insert(header, path, value) {
        Some(found) => Ok(found),
        None => Err(QueryError::Failed),
    }
}

/// Deletes what `header` holds at `path`, a sequence of names with `.` between them, and
/// returns it. A path that addresses an item of an array is not supported; the header then
/// stays as it is.
pub fn header_delete(header: &mut HeaderValue, path: &str) -> (r: Result<
    Option<HeaderValue>,
    QueryError,
>)
    ensures
        has_index(path@) ==> r == Err::<Option<HeaderValue>, QueryError>(
            QueryError::UnsupportedPath,
        ) && final(header)@ == old(header)@,
        !has_index(path@) ==> final(header)@ == query_delete(old(header)@, path@).0
            && result_view(r) == query_outcome(query_delete(old(header)@, path@).1),
{
    let shape = path_shape(path);
    if shape.0 {
        return Err(QueryError::UnsupportedPath);
    }
    match toml_query_delete(header, path) {
        Some(found) => Ok(found),
        None => Err(QueryError::Failed),
    }
}

} // verus!

//! Entries: a header and a content under an id, and their form as text.
use vstd::prelude::*;
use crate::codec::{parse_header, pretty_header, toml_parse, toml_pretty};
use crate::error::{StoreError, VerificationFailure};
use crate::storeid::StoreId;
use crate::text::{chars_of, slice_of};
use crate::value::{lemma_table_view, lookup, only_tables, HeaderValue, Tree};

verus! {

/// Whether `text` is a semantic version, as the `semver` crate judges.
pub uninterp spec fn semver_valid(text: Seq<char>) -> bool;

/// Asks `semver::Version::parse` whether `text` is a semantic version.
#[verifier::external_body]
pub(crate) fn is_semver(text: &str) -> (r: bool)
    ensures
        r == semver_valid(text@),
{
    semver::Version::parse(text).is_ok()
}

/// The version of the store's format that a new entry records.
pub open spec fn format_version() -> Seq<char> {
    "0.10.0"@
}

/// The header of a new entry: the reserved section with the version of the format.
pub open spec fn default_header_tree() -> Tree {
    Tree::Table(
        seq![("imag"@, Tree::Table(seq![("version"@, Tree::Text(format_version()))]))],
    )
}

/// A buffer opens a header when its first line is the delimiter.
pub open spec fn opens_header(buf: Seq<char>) -> bool {
    buf.len() >= 4 && buf[0] == '-' && buf[1] == '-' && buf[2] == '-' && buf[3] == '\n'
}

/// A delimiter line that is not the first line of the buffer begins at `p`.
pub open spec fn closes_header(buf: Seq<char>, p: int) -> bool {
    &&& 4 <= p
    &&& p + 3 <= buf.len()
    &&& buf[p - 1] == '\n'
    &&& buf[p] == '-'
    &&& buf[p + 1] == '-'
    &&& buf[p + 2] == '-'
    &&& (p + 3 == buf.len() || buf[p + 3] == '\n')
}

/// The buffer opens a header, and the first delimiter line after that begins at `p`.
pub open spec fn splits_at(buf: Seq<char>, p: int) -> bool {
    &&& opens_header(buf)
    &&& closes_header(buf, p)
    &&& forall|q: int| 4 <= q < p ==> !closes_header(buf, q)
}

/// The buffer holds a header between two delimiter lines.
pub open spec fn has_front_matter(buf: Seq<char>) -> bool {
    exists|p: int| splits_at(buf, p)
}

/// Where the line begins that closes the header.
pub open spec fn split_point(buf: Seq<char>) -> int {
    choose|p: int| splits_at(buf, p)
}

/// The text between the two delimiter lines.
pub open spec fn header_text(buf: Seq<char>) -> Seq<char> {
    buf.subrange(4, split_point(buf))
}

/// The text after the line that closes the header.
pub open spec fn content_text(buf: Seq<char>) -> Seq<char> {
    let p = split_point(buf);
    if p + 4 <= buf.len() {
        buf.subrange(p + 4, buf.len() as int)
    } else {
        Seq::empty()
    }
}

/// The text of an entry with the header text `header` and the content `content`.
pub open spec fn framed(header: Seq<char>, content: Seq<char>) -> Seq<char> {
    "---\n"@ + header + "---\n"@ + content
}

/// The text of an entry, where its header can be written.
pub open spec fn entry_text(header: Tree, content: Seq<char>) -> Option<Seq<char>> {
    match toml_pretty(header) {
        Some(h) => Some(framed(h, content)),
        None => None,
    }
}

/// A buffer is split at one place at most.
pub proof fn lemma_split_unique(buf: Seq<char>, p: int, q: int)
    requires
        splits_at(buf, p),
        splits_at(buf, q),
    ensures
        p == q,
{
    if p < q {
        assert(!closes_header(buf, p));
    } else if q < p {
        assert(!closes_header(buf, q));
    }
}

/// Splits a buffer into the text of its header and its content. There is a result exactly
/// when the first line is a delimiter and a later line is one too; the header is what stands
/// between the first two delimiter lines, the content all that follows the second.
pub fn split_buffer(buf: &str) -> (r: Option<(String, String)>)
    ensures
        match r {
            Some((h, c)) => has_front_matter(buf@) && h@ == header_text(buf@) && c@
                == content_text(buf@),
            None => !has_front_matter(buf@),
        },
{
    let chars = chars_of(buf);
    let n = chars.len();
    if n < 4 || chars[0] != '-' || chars[1] != '-' || chars[2] != '-' || chars[3] != '\n' {
        assert(forall|p: int| !splits_at(buf@, p));
        return None;
    }
    let mut p: usize = 4;
    while n >= 3 && p <= n - 3
        invariant
            chars@ == buf@,
            n == chars@.len(),
            4 <= p,
            opens_header(buf@),
            forall|q: int| 4 <= q < p ==> !closes_header(buf@, q),
        decreases n - p,
    {
        if chars[p - 1] == '\n' && chars[p] == '-' && chars[p + 1] == '-' && chars[p + 2] == '-' && (
        p + 3 == n || chars[p + 3] == '\n') {
            assert(splits_at(buf@, p as int));
            proof {
                lemma_split_unique(buf@, p as int, split_point(buf@));
            }
            let header = slice_of(buf, 4, p);
            let content = if p + 3 < n {
                slice_of(buf, p + 4, n)
            } else {
                String::new()
            };
            return Some((header, content));
        }
        p = p + 1;
    }
    assert(forall|q: int| !splits_at(buf@, q));
    None
}

/// Reads a buffer as an entry's header and content.
pub fn entry_buffer_to_header_content(buf: &str) -> (r: Result<(HeaderValue, String), StoreError>)
    ensures
        match r {
            Ok((h, c)) => has_front_matter(buf@) && toml_parse(header_text(buf@)) == Some(h@)
                && c@ == content_text(buf@),
            Err(e) => e == StoreError::MalformedEntry && (!has_front_matter(buf@) || toml_parse(
                header_text(buf@),
            ) is None),
        },
{
    match split_buffer(buf) {
        None => Err(StoreError::MalformedEntry),
        Some((header, content)) => match parse_header(header.as_str()) {
            None => Err(StoreError::MalformedEntry),
            Some(h) => Ok((h, content)),
        },
    }
}

/// What an entry is: where it lives, its header and its content.
pub ghost struct EntryView {
    pub location: Seq<char>,
    pub header: Tree,
    pub content: Seq<char>,
}

/// An entry of the store.
#[derive(Debug, PartialEq, Eq)]
pub struct Entry {
    location: StoreId,
    header: HeaderValue,
    content: String,
}

impl View for Entry {
    type V = EntryView;

    closed spec fn view(&self) -> EntryView {
        EntryView { location: self.location@, header: self.header@, content: self.content@ }
    }
}

impl Clone for Entry {
    fn clone(&self) -> (r: Entry)
        ensures
            r@ == self@,
    {
        Entry {
            location: self.location.duplicate(),
            header: self.header.clone(),
            content: self.content.clone(),
        }
    }
}

/// The first rule that the header breaks, if it breaks one: the reserved section is a table;
/// it holds a version that is a semantic version; every value that the header holds under a
/// name at its root is a table.
pub open spec fn verification(h: Tree) -> Option<VerificationFailure> {
    if !(lookup(h, "imag"@) matches Some(m) && m is Table) {
        Some(VerificationFailure::MissingMainSection)
    } else if !(lookup(lookup(h, "imag"@)->Some_0, "version"@) matches Some(Tree::Text(v))
        && semver_valid(v)) {
        Some(VerificationFailure::MissingVersionInfo)
    } else if !only_tables(h->Table_0) {
        Some(VerificationFailure::NonTableInBaseTable)
    } else {
        None
    }
}

/// The header of a new entry holds the reserved section with the version of the format, and
/// nothing else: it passes verification exactly when that version is a semantic version.
pub proof fn lemma_default_header()
    ensures
        lookup(default_header_tree(), "imag"@) == Some(
            Tree::Table(seq![("version"@, Tree::Text(format_version()))]),
        ),
        lookup(lookup(default_header_tree(), "imag"@)->Some_0, "version"@) == Some(
            Tree::Text(format_version()),
        ),
        verification(default_header_tree()) == if semver_valid(format_version()) {
            None::<VerificationFailure>
        } else {
            Some(VerificationFailure::MissingVersionInfo)
        },
{
    reveal_with_fuel(crate::value::key_index_before, 3);
}

/// A header without the reserved section does not pass verification.
pub proof fn lemma_verify_needs_main_section(h: Tree)
    requires
        lookup(h, "imag"@) is None,
    ensures
        verification(h) == Some(VerificationFailure::MissingMainSection),
{
}

/// A header that holds, under some name at its root, a value that is not a table does not
/// pass verification.
pub proof fn lemma_verify_needs_tables(h: Tree, name: Seq<char>)
    requires
        lookup(h, name) is Some,
        !(lookup(h, name)->Some_0 is Table),
    ensures
        verification(h) is Some,
{
    crate::value::lemma_key_index_before(h->Table_0, name, h->Table_0.len() as int);
    let i = crate::value::key_index(h->Table_0, name)->Some_0;
    assert(crate::value::counts(h->Table_0, i));
}

/// A header passes verification when its reserved section is a table that holds a semantic
/// version as its version, and every value that it holds under a name at its root is a
/// table.
pub proof fn lemma_verify_passes(h: Tree, section: Tree, version: Seq<char>)
    requires
        h is Table,
        only_tables(h->Table_0),
        lookup(h, "imag"@) == Some(section),
        lookup(section, "version"@) == Some(Tree::Text(version)),
        semver_valid(version),
    ensures
        verification(h) is None,
{
    crate::value::lemma_key_index_before(h->Table_0, "imag"@, h->Table_0.len() as int);
}

/// Writing what was read gives the buffer back: where a buffer holds a header between two
/// delimiter lines, each ended by a line break, and the header is text that the pretty
/// printer writes for what it parses to, the text of the entry read from the buffer is the
/// buffer.
pub proof fn lemma_round_trip(buf: Seq<char>, header: Tree)
    requires
        has_front_matter(buf),
        split_point(buf) + 3 < buf.len(),
        toml_parse(header_text(buf)) == Some(header),
        toml_pretty(header) == Some(header_text(buf)),
    ensures
        entry_text(header, content_text(buf)) == Some(buf),
{
    let p = split_point(buf);
    assert(splits_at(buf, p));
    reveal_strlit("---\n");
    assert("---\n"@ =~= seq!['-', '-', '-', '\n']);
    assert(framed(header_text(buf), content_text(buf)) =~= buf);
}

/// Whether the reserved section of `t` is a table. It is an error if `t` has no such section.
pub fn has_main_section(t: &HeaderValue) -> (r: Result<bool, StoreError>)
    ensures
        match lookup(t@, "imag"@) {
            Some(m) => r == Ok::<bool, StoreError>(m is Table),
            None => r == Err::<bool, StoreError>(
                StoreError::VerificationFailed(VerificationFailure::MissingMainSection),
            ),
        },
{
    match t.get("imag") {
        Some(m) => Ok(m.is_table()),
        None => Err(StoreError::VerificationFailed(VerificationFailure::MissingMainSection)),
    }
}

/// Whether the version in the reserved section of `t` is a semantic version. It is an error
/// if there is no reserved section, or no version in it, or if the version is not a string.
pub fn has_imag_version_in_main_section(t: &HeaderValue) -> (r: Result<bool, StoreError>)
    ensures
        match lookup(t@, "imag"@) {
            Some(m) => match lookup(m, "version"@) {
                Some(Tree::Text(v)) => r == Ok::<bool, StoreError>(semver_valid(v)),
                _ => r == Err::<bool, StoreError>(
                    StoreError::VerificationFailed(VerificationFailure::MissingVersionInfo),
                ),
            },
            None => r == Err::<bool, StoreError>(
                StoreError::VerificationFailed(VerificationFailure::MissingVersionInfo),
            ),
        },
{
    let missing = Err(StoreError::VerificationFailed(VerificationFailure::MissingVersionInfo));
    match t.get("imag") {
        Some(m) => match m.get("version") {
            Some(v) => match v.as_str() {
                Some(s) => Ok(is_semver(s)),
                None => missing,
            },
            None => missing,
        },
        None => missing,
    }
}

/// Whether every value that `t` holds under a name at its root is a table. It is an error if
/// `t` is no table.
pub fn has_only_tables(t: &HeaderValue) -> (r: Result<bool, StoreError>)
    ensures
        match t@ {
            Tree::Table(entries) => r == Ok::<bool, StoreError>(only_tables(entries)),
            _ => r == Err::<bool, StoreError>(
                StoreError::VerificationFailed(VerificationFailure::NonTableInBaseTable),
            ),
        },
{
    match t {
        HeaderValue::Table(entries) => {
            proof {
                lemma_table_view(*t);
            }
            let mut i: usize = 0;
            while i < entries.len()
                invariant
                    i <= entries.len(),
                    t@ is Table,
                    t@->Table_0.len() == entries@.len(),
                    forall|j: int|
                        0 <= j < entries@.len() ==> (#[trigger] t@->Table_0[j]) == (
                            entries@[j].0@,
                            entries@[j].1@,
                        ),
                    forall|j: int|
                        0 <= j < i && crate::value::counts(t@->Table_0, j) ==> (
                        #[trigger] t@->Table_0[j]).1 is Table,
                decreases entries.len() - i,
            {
                assert(t@->Table_0[i as int] == (entries@[i as int].0@, entries@[i as int].1@));
                if !entries[i].1.is_table() {
                    match t.last_index_of(entries[i].0.as_str()) {
                        Some(last) => {
                            if last == i {
                                assert(crate::value::counts(t@->Table_0, i as int));
                                return Ok(false);
                            }
                        },
                        None => {},
                    }
                }
                i = i + 1;
            }
            Ok(true)
        },
        _ => Err(StoreError::VerificationFailed(VerificationFailure::NonTableInBaseTable)),
    }
}

impl Entry {
    /// The header of a new entry.
    pub fn default_header() -> (r: HeaderValue)
        ensures
            r@ == default_header_tree(),
    {
        let version = HeaderValue::String("0.10.0".to_owned());
        let section = HeaderValue::table_of("version".to_owned(), version);
        HeaderValue::table_of("imag".to_owned(), section)
    }

    /// A new entry at `loc`, with the default header and no content.
    pub fn new(loc: StoreId) -> (r: Entry)
        ensures
            r@ == (EntryView {
                location: loc@,
                header: default_header_tree(),
                content: Seq::empty(),
            }),
    {
        Entry { location: loc, header: Entry::default_header(), content: String::new() }
    }

    /// An entry of the given parts.
    pub fn from_parts(loc: StoreId, header: HeaderValue, content: String) -> (r: Entry)
        ensures
            r@ == (EntryView { location: loc@, header: header@, content: content@ }),
    {
        Entry { location: loc, header, content }
    }

    /// Reads the entry at `loc` from its text `s`: a header between two delimiter lines, then
    /// the content.
    pub fn from_str(loc: StoreId, s: &str) -> (r: Result<Entry, StoreError>)
        ensures
            match r {
                Ok(e) => has_front_matter(s@) && toml_parse(header_text(s@)) == Some(e@.header)
                    && e@.content == content_text(s@) && e@.location == loc@,
                Err(e) => e == StoreError::MalformedEntry && (!has_front_matter(s@) || toml_parse(
                    header_text(s@),
                ) is None),
            },
    {
        match entry_buffer_to_header_content(s) {
            Ok((header, content)) => Ok(Entry { location: loc, header, content }),
            Err(e) => Err(e),
        }
    }

    /// The entry as text: a delimiter line, the header, a delimiter line, the content.
    pub fn to_str(&self) -> (r: Result<String, StoreError>)
        ensures
            match r {
                Ok(s) => entry_text(self@.header, self@.content) == Some(s@),
                Err(e) => e == StoreError::MalformedEntry && entry_text(
                    self@.header,
                    self@.content,
                ) is None,
            },
    {
        match pretty_header(&self.header) {
            None => Err(StoreError::MalformedEntry),
            Some(h) => {
                let mut s = "---\n".to_owned();
                s.append(h.as_str());
                s.append("---\n");
                s.append(self.content.as_str());
                Ok(s)
            },
        }
    }

    /// Where the entry lives.
    pub fn get_location(&self) -> (r: &StoreId)
        ensures
            r@ == self@.location,
    {
        &self.location
    }

    /// The header.
    pub fn get_header(&self) -> (r: &HeaderValue)
        ensures
            r@ == self@.header,
    {
        &self.header
    }

    /// The content.
    pub fn get_content(&self) -> (r: &String)
        ensures
            r@ == self@.content,
    {
        &self.content
    }

    /// The header, to be changed.
    pub fn get_header_mut(&mut self) -> (r: &mut HeaderValue)
        ensures
            r@ == old(self)@.header,
            final(self)@ == (EntryView { header: final(r)@, ..old(self)@ }),
    {
        &mut self.header
    }

    /// The content, to be changed.
    pub fn get_content_mut(&mut self) -> (r: &mut String)
        ensures
            r@ == old(self)@.content,
            final(self)@ == (EntryView { content: final(r)@, ..old(self)@ }),
    {
        &mut self.content
    }

    /// Puts `header` in the place of the header.
    pub fn set_header(&mut self, header: HeaderValue)
        ensures
            final(self)@ == (EntryView { header: header@, ..old(self)@ }),
    {
        self.header = header;
    }

    /// Puts `content` in the place of the content.
    pub fn set_content(&mut self, content: String)
        ensures
            final(self)@ == (EntryView { content: content@, ..old(self)@ }),
    {
        self.content = content;
    }

    /// Replaces header and content by what `buf` holds. Where `buf` cannot be read, the entry
    /// stays as it is.
    pub fn replace_from_buffer(&mut self, buf: &str) -> (r: Result<(), StoreError>)
        ensures
            match r {
                Ok(()) => has_front_matter(buf@) && toml_parse(header_text(buf@)) == Some(
                    final(self)@.header,
                ) && final(self)@.content == content_text(buf@) && final(self)@.location == old(self)@.location,
                Err(e) => e == StoreError::MalformedEntry && (!has_front_matter(buf@)
                    || toml_parse(header_text(buf@)) is None) && final(self)@ == old(self)@,
            },
    {
        match entry_buffer_to_header_content(buf) {
            Ok((header, content)) => {
                self.content = content;
                self.header = header;
                Ok(())
            },
            Err(e) => Err(e),
        }
    }

    /// Checks the header against the structural rules, and names the first that it breaks.
    pub fn verify(&self) -> (r: Result<(), StoreError>)
        ensures
            r == match verification(self@.header) {
                Some(f) => Err::<(), StoreError>(StoreError::VerificationFailed(f)),
                None => Ok::<(), StoreError>(()),
            },
    {
        match has_main_section(&self.header) {
            Err(e) => Err(e),
            Ok(false) => Err(StoreError::VerificationFailed(VerificationFailure::MissingMainSection)),
            Ok(true) => match has_imag_version_in_main_section(&self.header) {
                Err(e) => Err(e),
                Ok(false) => Err(
                    StoreError::VerificationFailed(VerificationFailure::MissingVersionInfo),
                ),
                Ok(true) => match has_only_tables(&self.header) {
                    Err(e) => Err(e),
                    Ok(false) => Err(
                        StoreError::VerificationFailed(VerificationFailure::NonTableInBaseTable),
                    ),
                    Ok(true) => Ok(()),
                },
            },
        }
    }
}

} // verus!

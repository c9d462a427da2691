//! The store: a cache of entries that are lent out one borrower at a time, in front of a
//! backend that keeps them.
use vstd::prelude::*;
use crate::entry::{default_header_tree, verification, Entry, EntryView};
use crate::error::StoreError;
use crate::file_abstraction::{FileAbstraction, Files};
use crate::file_abstraction::lists_files;
use crate::storeid::{
    join, join_paths, relative_form, stripped, IntoStoreId, StoreId, StoreIdIterator,
    StoreIdWithBase,
};
use crate::strmap::StringMap;
use crate::value::{lookup, HeaderValue, Tree};

verus! {

/// Whether somebody holds the entry of a slot.
#[derive(Debug, Clone, Copy, PartialEq, Eq, Structural)]
pub enum StoreEntryStatus {
    /// Nobody holds the entry.
    Present,
    /// One borrower holds the entry.
    Borrowed,
}

/// What a slot of the cache is.
pub ghost struct SlotView {
    pub id: Seq<char>,
    pub file: Seq<char>,
    pub status: StoreEntryStatus,
}

/// A slot of the cache: the id of an entry, its place at the backend, and whether it is lent
/// out.
pub struct StoreEntry {
    id: StoreId,
    file: String,
    status: StoreEntryStatus,
}

impl View for StoreEntry {
    type V = SlotView;

    closed spec fn view(&self) -> SlotView {
        SlotView { id: self.id@, file: self.file@, status: self.status }
    }
}

impl StoreEntry {
    /// A slot for the entry `id` of the store at `store_base`, which nobody holds.
    fn new(store_base: &str, id: StoreId) -> (r: StoreEntry)
        ensures
            r@ == (SlotView {
                id: id@,
                file: join(store_base@, id@),
                status: StoreEntryStatus::Present,
            }),
    {
        let file = join_paths(store_base, id.local().as_str());
        StoreEntry { id, file, status: StoreEntryStatus::Present }
    }

    /// Whether somebody holds the entry.
    fn is_borrowed(&self) -> (r: bool)
        ensures
            r == (self@.status == StoreEntryStatus::Borrowed),
    {
        self.status == StoreEntryStatus::Borrowed
    }

    /// The entry of the slot: the one that `backend` keeps at the place of the slot, or a
    /// new one where it keeps none. Fails where somebody holds the entry.
    fn get_entry<B: FileAbstraction>(&self, backend: &B) -> (r: Result<Entry, StoreError>)
        requires
            backend.wf(),
        ensures
            match r {
                Ok(e) => self@.status == StoreEntryStatus::Present && e@ == kept_entry(
                    backend.files(),
                    self@.file,
                    self@.id,
                ),
                Err(e) => if self@.status == StoreEntryStatus::Borrowed {
                    e == StoreError::Locked
                } else {
                    (e == StoreError::BackendIo || e == StoreError::MalformedEntry)
                        && !backend.reliable()
                },
            },
    {
        if self.is_borrowed() {
            return Err(StoreError::Locked);
        }
        match backend.get_file_content(self.file.as_str()) {
            Err(e) => Err(e),
            Ok(Some((header, content))) => Ok(
                Entry::from_parts(self.id.duplicate(), header, content),
            ),
            Ok(None) => Ok(Entry::new(self.id.duplicate())),
        }
    }

    /// Writes `entry`, which is the entry of the slot, to `backend` at the place of the
    /// slot, if somebody holds the entry; else nothing is written.
    fn write_entry<B: FileAbstraction>(&self, backend: &mut B, entry: &Entry) -> (r: Result<
        (),
        StoreError,
    >)
        requires
            old(backend).wf(),
            self@.id == entry@.location,
        ensures
            final(backend).wf(),
            final(backend).reliable() == old(backend).reliable(),
            match r {
                Ok(()) => final(backend).files() == if self@.status
                    == StoreEntryStatus::Borrowed {
                    old(backend).files().insert(self@.file, (entry@.header, entry@.content))
                } else {
                    old(backend).files()
                },
                Err(e) => e == StoreError::BackendIo && self@.status
                    == StoreEntryStatus::Borrowed && !old(backend).reliable() && final(backend).files() == old(backend).files(),
            },
    {
        if self.is_borrowed() {
            match backend.write_file_content(
                self.file.as_str(),
                entry.get_header(),
                entry.get_content().as_str(),
            ) {
                Err(_) => Err(StoreError::BackendIo),
                Ok(()) => Ok(()),
            }
        } else {
            Ok(())
        }
    }
}

/// The entry `id` as `files` keeps it at `file`, or a new one where `files` keeps none.
pub open spec fn kept_entry(files: Files, file: Seq<char>, id: Seq<char>) -> EntryView {
    if files.contains_key(file) {
        EntryView { location: id, header: files[file].0, content: files[file].1 }
    } else {
        fresh_entry(id)
    }
}

/// What the store finds at the place of its root when it is opened.
#[derive(Debug, Clone, Copy, PartialEq, Eq, Structural)]
pub enum LocationState {
    /// Nothing is there.
    Missing,
    /// A directory is there.
    Directory,
    /// A file is there.
    File,
}

/// What a store is: its root, which ids its cache holds and whether each is lent out, and
/// what its backend keeps.
pub ghost struct StoreView {
    pub location: Seq<char>,
    pub cache: Map<Seq<char>, StoreEntryStatus>,
    pub files: Files,
}

/// The place of the entry `id` at the backend.
pub open spec fn path_of(s: StoreView, id: Seq<char>) -> Seq<char> {
    join(s.location, id)
}

/// Whether the store has the entry `id`, in its cache or at its backend.
pub open spec fn known(s: StoreView, id: Seq<char>) -> bool {
    s.cache.contains_key(id) || s.files.contains_key(path_of(s, id))
}

/// Whether the entry `id` is lent out.
pub open spec fn borrowed(s: StoreView, id: Seq<char>) -> bool {
    s.cache.contains_key(id) && s.cache[id] == StoreEntryStatus::Borrowed
}

/// A new entry at `id`: the default header and no content.
pub open spec fn fresh_entry(id: Seq<char>) -> EntryView {
    EntryView { location: id, header: default_header_tree(), content: Seq::empty() }
}

/// The entry `id` as the backend keeps it, or a new one where the backend keeps none.
pub open spec fn stored_entry(s: StoreView, id: Seq<char>) -> EntryView {
    kept_entry(s.files, path_of(s, id), id)
}

/// What `create` returns: a new entry, unless the store has the id already.
pub open spec fn create_result(s: StoreView, id: Seq<char>) -> Result<EntryView, StoreError> {
    if known(s, id) {
        Err(StoreError::AlreadyExists)
    } else {
        Ok(fresh_entry(id))
    }
}

/// The store after `create`: the id is in the cache, lent out.
pub open spec fn create_state(s: StoreView, id: Seq<char>) -> StoreView {
    if known(s, id) {
        s
    } else {
        StoreView { cache: s.cache.insert(id, StoreEntryStatus::Borrowed), ..s }
    }
}

/// What `retrieve` returns: the entry as the backend keeps it or a new one, unless the entry
/// is lent out.
pub open spec fn retrieve_result(s: StoreView, id: Seq<char>) -> Result<EntryView, StoreError> {
    if borrowed(s, id) {
        Err(StoreError::Locked)
    } else {
        Ok(stored_entry(s, id))
    }
}

/// The store after `retrieve`: the id is in the cache, lent out. Where the entry was lent
/// out before, the store is as it was.
pub open spec fn retrieve_state(s: StoreView, id: Seq<char>) -> StoreView {
    if borrowed(s, id) {
        s
    } else {
        StoreView { cache: s.cache.insert(id, StoreEntryStatus::Borrowed), ..s }
    }
}

/// What `get` returns: nothing where the store does not have the id, else what `retrieve`
/// returns.
pub open spec fn get_result(s: StoreView, id: Seq<char>) -> Result<Option<EntryView>, StoreError> {
    if !known(s, id) {
        Ok(None)
    } else {
        match retrieve_result(s, id) {
            Ok(e) => Ok(Some(e)),
            Err(e) => Err(e),
        }
    }
}

/// The store after `get`.
pub open spec fn get_state(s: StoreView, id: Seq<char>) -> StoreView {
    if !known(s, id) {
        s
    } else {
        retrieve_state(s, id)
    }
}

/// What writing the entry `e` back returns: the store must hold its id, and its header must
/// pass verification.
pub open spec fn update_result(s: StoreView, e: EntryView) -> Result<(), StoreError> {
    if !s.cache.contains_key(e.location) {
        Err(StoreError::NotFound)
    } else {
        match verification(e.header) {
            Some(f) => Err(StoreError::VerificationFailed(f)),
            None => Ok(()),
        }
    }
}

/// The store after an entry that it holds was handed back without being written: with
/// `release`, the entry is no longer lent out; the backend keeps what it kept.
pub open spec fn unwritten_state(s: StoreView, e: EntryView, release: bool) -> StoreView {
    if release && s.cache.contains_key(e.location) {
        StoreView { cache: s.cache.insert(e.location, StoreEntryStatus::Present), ..s }
    } else {
        s
    }
}

/// The store after the entry `e` was handed back to be written: where the store holds its
/// id and its header passes verification, the backend keeps its header and content, and
/// else the backend keeps what it kept; with `release`, the entry is no longer lent out,
/// written or not.
pub open spec fn update_state(s: StoreView, e: EntryView, release: bool) -> StoreView {
    if update_result(s, e) is Ok {
        StoreView {
            files: s.files.insert(path_of(s, e.location), (e.header, e.content)),
            ..unwritten_state(s, e, release)
        }
    } else {
        unwritten_state(s, e, release)
    }
}

/// The store after its cache was flushed: the slots that are not lent out are gone.
pub open spec fn flush_state(s: StoreView) -> StoreView {
    StoreView { cache: s.cache.remove_keys(present_ids(s)), ..s }
}

/// The ids in the cache that are not lent out.
pub open spec fn present_ids(s: StoreView) -> Set<Seq<char>> {
    Set::new(|k: Seq<char>| s.cache.contains_key(k) && s.cache[k] == StoreEntryStatus::Present)
}

/// What `get_copy` returns: the entry as the backend keeps it or a new one, unless the entry
/// is lent out.
pub open spec fn get_copy_result(s: StoreView, id: Seq<char>) -> Result<EntryView, StoreError> {
    if borrowed(s, id) {
        Err(StoreError::Locked)
    } else {
        Ok(stored_entry(s, id))
    }
}

/// What `delete` returns.
pub open spec fn delete_result(s: StoreView, id: Seq<char>) -> Result<(), StoreError> {
    if borrowed(s, id) {
        Err(StoreError::Locked)
    } else if s.files.contains_key(path_of(s, id)) {
        Ok(())
    } else if s.cache.contains_key(id) {
        Err(StoreError::BackendIo)
    } else {
        Err(StoreError::NotFound)
    }
}

/// The store after `delete`: unless the entry is lent out, neither the cache nor the backend
/// has it.
pub open spec fn delete_state(s: StoreView, id: Seq<char>) -> StoreView {
    if borrowed(s, id) {
        s
    } else {
        StoreView {
            cache: s.cache.remove(id),
            files: s.files.remove(path_of(s, id)),
            ..s
        }
    }
}

/// What `move_by_id` returns.
pub open spec fn move_result(s: StoreView, old_id: Seq<char>, new_id: Seq<char>) -> Result<
    (),
    StoreError,
> {
    if s.cache.contains_key(new_id) {
        Err(StoreError::AlreadyExists)
    } else if borrowed(s, old_id) {
        Err(StoreError::Locked)
    } else if s.files.contains_key(path_of(s, new_id)) {
        Err(StoreError::AlreadyExists)
    } else if !s.files.contains_key(path_of(s, old_id)) {
        Err(StoreError::BackendIo)
    } else {
        Ok(())
    }
}

/// The store after `move_by_id`: where the move succeeds, the backend keeps the entry under
/// the new id and the slot, if there is one, is kept under the new id.
pub open spec fn move_state(s: StoreView, old_id: Seq<char>, new_id: Seq<char>) -> StoreView {
    if move_result(s, old_id, new_id) is Ok {
        StoreView {
            files: s.files.remove(path_of(s, old_id)).insert(
                path_of(s, new_id),
                s.files[path_of(s, old_id)],
            ),
            cache: if s.cache.contains_key(old_id) {
                s.cache.remove(old_id).insert(new_id, s.cache[old_id])
            } else {
                s.cache
            },
            ..s
        }
    } else {
        s
    }
}

/// What saving the entry at `from` under `new_id` returns.
pub open spec fn save_result(s: StoreView, from: Seq<char>, new_id: Seq<char>) -> Result<
    (),
    StoreError,
> {
    if known(s, new_id) {
        Err(StoreError::AlreadyExists)
    } else if !s.files.contains_key(path_of(s, from)) {
        Err(StoreError::BackendIo)
    } else {
        Ok(())
    }
}

/// What the backend keeps after the entry at `from` was saved under `new_id`: where that
/// succeeds, a copy under the new id, and with `remove_old` nothing under the old one.
pub open spec fn saved_files(s: StoreView, from: Seq<char>, new_id: Seq<char>, remove_old: bool)
    -> Files {
    if save_result(s, from, new_id) is Ok {
        let copied = s.files.insert(path_of(s, new_id), s.files[path_of(s, from)]);
        if remove_old {
            copied.remove(path_of(s, from))
        } else {
            copied
        }
    } else {
        s.files
    }
}

/// The store after `save_to`: where it succeeds, the backend keeps a copy under the new id.
pub open spec fn save_to_state(s: StoreView, from: Seq<char>, new_id: Seq<char>) -> StoreView {
    if save_result(s, from, new_id) is Ok {
        StoreView {
            files: s.files.insert(path_of(s, new_id), s.files[path_of(s, from)]),
            ..s
        }
    } else {
        s
    }
}

/// The store after `save_as` of the entry `e`: where it succeeds, the backend keeps the
/// entry under the new id only and the slot is gone; where it does not, the entry is
/// written back as by a release.
pub open spec fn save_as_state(s: StoreView, e: EntryView, new_id: Seq<char>) -> StoreView {
    if save_result(s, e.location, new_id) is Ok {
        StoreView {
            files: s.files.insert(path_of(s, new_id), s.files[path_of(s, e.location)]).remove(
                path_of(s, e.location),
            ),
            cache: s.cache.remove(e.location),
            ..s
        }
    } else {
        update_state(s, e, true)
    }
}

/// `ids` holds, for each path of `files` at or below `location`, the id that is left of the
/// path below `location`, in the form in which ids are kept, once, and nothing else.
pub open spec fn enumerates(
    ids: Seq<Result<Seq<char>, StoreError>>,
    files: Files,
    location: Seq<char>,
) -> bool {
    exists|paths: Seq<String>|
        #![trigger lists_files(paths, files, location)]
        lists_files(paths, files, location) && ids.len() == paths.len() && forall|i: int|
            0 <= i < paths.len() ==> #[trigger] ids[i] == Ok::<Seq<char>, StoreError>(
                relative_form(stripped(location, paths[i]@)),
            )
}

/// What `create` may leave behind: what the store calls for, or, where the cache does not
/// hold the id and the backend, which is then asked, is not reliable, a failure of the
/// backend that changes nothing.
pub open spec fn create_outcome(
    pre: StoreView,
    reliable: bool,
    id: Seq<char>,
    r: Result<EntryView, StoreError>,
    post: StoreView,
) -> bool {
    ||| r == create_result(pre, id) && post == create_state(pre, id)
    ||| !reliable && !pre.cache.contains_key(id) && r == Err::<EntryView, StoreError>(
        StoreError::BackendIo,
    ) && post == pre
}

/// What `retrieve` may leave behind: what the store calls for, or, where the entry is not
/// lent out and the backend, which is then asked, is not reliable, a failure to read the
/// entry that changes nothing.
pub open spec fn retrieve_outcome(
    pre: StoreView,
    reliable: bool,
    id: Seq<char>,
    r: Result<EntryView, StoreError>,
    post: StoreView,
) -> bool {
    ||| r == retrieve_result(pre, id) && post == retrieve_state(pre, id)
    ||| !reliable && !borrowed(pre, id) && (r == Err::<EntryView, StoreError>(
        StoreError::BackendIo,
    ) || r == Err::<EntryView, StoreError>(StoreError::MalformedEntry)) && post == pre
}

/// What `get` may leave behind: what the store calls for, or, where the entry is not lent
/// out and the backend, which is then asked, is not reliable, a failure to find or read the
/// entry that changes nothing.
pub open spec fn get_outcome(
    pre: StoreView,
    reliable: bool,
    id: Seq<char>,
    r: Result<Option<EntryView>, StoreError>,
    post: StoreView,
) -> bool {
    ||| r == get_result(pre, id) && post == get_state(pre, id)
    ||| !reliable && !borrowed(pre, id) && (r == Err::<Option<EntryView>, StoreError>(
        StoreError::BackendIo,
    ) || r == Err::<Option<EntryView>, StoreError>(StoreError::MalformedEntry)) && post == pre
}

/// What handing an entry back may leave behind: what the store calls for, or, where the
/// entry is to be written and the backend is not reliable, a failure to write it, after
/// which the backend keeps what it kept.
pub open spec fn update_outcome(
    pre: StoreView,
    reliable: bool,
    e: EntryView,
    release: bool,
    r: Result<(), StoreError>,
    post: StoreView,
) -> bool {
    ||| r == update_result(pre, e) && post == update_state(pre, e, release)
    ||| !reliable && update_result(pre, e) is Ok && r == Err::<(), StoreError>(
        StoreError::BackendIo,
    ) && post == unwritten_state(pre, e, release)
}

/// What `delete` may leave behind: what the store calls for, or, with a backend that is not
/// reliable, a failure of the backend after which the cache no longer holds the id.
pub open spec fn delete_outcome(
    pre: StoreView,
    reliable: bool,
    id: Seq<char>,
    r: Result<(), StoreError>,
    post: StoreView,
) -> bool {
    ||| r == delete_result(pre, id) && post == delete_state(pre, id)
    ||| !reliable && !borrowed(pre, id) && r == Err::<(), StoreError>(StoreError::BackendIo)
        && post == (StoreView { cache: pre.cache.remove(id), ..pre })
}

/// What `move_by_id` may leave behind: what the store calls for, or, where the cache does
/// not hold the new id, the entry is not lent out and the backend, which is then asked, is
/// not reliable, a failure of the backend that changes nothing.
pub open spec fn move_outcome(
    pre: StoreView,
    reliable: bool,
    old_id: Seq<char>,
    new_id: Seq<char>,
    r: Result<(), StoreError>,
    post: StoreView,
) -> bool {
    ||| r == move_result(pre, old_id, new_id) && post == move_state(pre, old_id, new_id)
    ||| !reliable && !pre.cache.contains_key(new_id) && !borrowed(pre, old_id) && r == Err::<
        (),
        StoreError,
    >(StoreError::BackendIo) && post == pre
}

/// What `save_to` may leave behind: what the store calls for, or, where the cache does not
/// hold the new id and the backend, which is then asked, is not reliable, a failure of the
/// backend that changes nothing.
pub open spec fn save_to_outcome(
    pre: StoreView,
    reliable: bool,
    from: Seq<char>,
    new_id: Seq<char>,
    r: Result<(), StoreError>,
    post: StoreView,
) -> bool {
    ||| r == save_result(pre, from, new_id) && post == save_to_state(pre, from, new_id)
    ||| !reliable && !pre.cache.contains_key(new_id) && r == Err::<(), StoreError>(
        StoreError::BackendIo,
    ) && post == pre
}

/// The store `s` with the copy that `save_as` makes of the entry at `from` under `new_id`,
/// before it removes anything.
pub open spec fn with_copy(s: StoreView, from: Seq<char>, new_id: Seq<char>) -> StoreView {
    StoreView { files: saved_files(s, from, new_id, false), ..s }
}

/// What `save_as` may leave behind. Where it succeeds, the backend keeps the entry under
/// the new id only and the slot is gone. Where it fails, the entry is released: from the
/// store as it was, or, where the backend failed to remove the entry under its own id, from
/// the store with the copy made. A failure of the backend is met only where the cache does
/// not hold the new id and the backend, which is then asked, is not reliable.
pub open spec fn save_as_outcome(
    pre: StoreView,
    reliable: bool,
    e: EntryView,
    new_id: Seq<char>,
    r: Result<(), StoreError>,
    post: StoreView,
) -> bool {
    ||| r == save_result(pre, e.location, new_id) && r is Ok && post == save_as_state(
        pre,
        e,
        new_id,
    )
    ||| r == save_result(pre, e.location, new_id) && r is Err && released(pre, reliable, e, post)
    ||| !reliable && !pre.cache.contains_key(new_id) && r == Err::<(), StoreError>(
        StoreError::BackendIo,
    ) && (released(pre, reliable, e, post) || (save_result(pre, e.location, new_id) is Ok
        && released(with_copy(pre, e.location, new_id), reliable, e, post)))
}

/// What `create` may leave behind when it is given what may not turn into an id: where it
/// does not, that is the error and the store stays as it is.
pub open spec fn create_from_outcome(
    pre: StoreView,
    reliable: bool,
    id: Result<Seq<char>, StoreError>,
    r: Result<EntryView, StoreError>,
    post: StoreView,
) -> bool {
    match id {
        Ok(sid) => create_outcome(pre, reliable, sid, r, post),
        Err(e) => r == Err::<EntryView, StoreError>(e) && post == pre,
    }
}

/// What `retrieve` may leave behind when it is given what may not turn into an id.
pub open spec fn retrieve_from_outcome(
    pre: StoreView,
    reliable: bool,
    id: Result<Seq<char>, StoreError>,
    r: Result<EntryView, StoreError>,
    post: StoreView,
) -> bool {
    match id {
        Ok(sid) => retrieve_outcome(pre, reliable, sid, r, post),
        Err(e) => r == Err::<EntryView, StoreError>(e) && post == pre,
    }
}

/// What `get` may leave behind when it is given what may not turn into an id.
pub open spec fn get_from_outcome(
    pre: StoreView,
    reliable: bool,
    id: Result<Seq<char>, StoreError>,
    r: Result<Option<EntryView>, StoreError>,
    post: StoreView,
) -> bool {
    match id {
        Ok(sid) => get_outcome(pre, reliable, sid, r, post),
        Err(e) => r == Err::<Option<EntryView>, StoreError>(e) && post == pre,
    }
}

/// What `delete` may leave behind when it is given what may not turn into an id.
pub open spec fn delete_from_outcome(
    pre: StoreView,
    reliable: bool,
    id: Result<Seq<char>, StoreError>,
    r: Result<(), StoreError>,
    post: StoreView,
) -> bool {
    match id {
        Ok(sid) => delete_outcome(pre, reliable, sid, r, post),
        Err(e) => r == Err::<(), StoreError>(e) && post == pre,
    }
}

/// What `get_copy` returns: the copy or the error that the store calls for, or, where the
/// entry is not lent out and the backend, which is then asked, is not reliable, a failure to
/// read the entry.
pub open spec fn get_copy_outcome(
    s: StoreView,
    reliable: bool,
    id: Result<Seq<char>, StoreError>,
    r: Result<EntryView, StoreError>,
) -> bool {
    match id {
        Ok(sid) => r == get_copy_result(s, sid) || (!reliable && !borrowed(s, sid) && (r
            == Err::<EntryView, StoreError>(StoreError::BackendIo) || r == Err::<
            EntryView,
            StoreError,
        >(StoreError::MalformedEntry))),
        Err(e) => r == Err::<EntryView, StoreError>(e),
    }
}

/// The view of a copy of an entry, or of the error in its place.
pub open spec fn copied(r: Result<Entry, StoreError>) -> Result<EntryView, StoreError> {
    match r {
        Ok(e) => Ok(e@),
        Err(e) => Err(e),
    }
}

/// What a release may leave behind: the store after the entry was handed back, or, where
/// the entry is to be written and the backend is not reliable, the store after the entry was
/// handed back without being written. Either way the entry is no longer lent out.
pub open spec fn released(pre: StoreView, reliable: bool, e: EntryView, post: StoreView) -> bool {
    post == update_state(pre, e, true) || (!reliable && update_result(pre, e) is Ok && post
        == unwritten_state(pre, e, true))
}

/// `get` on an id that the store does not have returns nothing and changes nothing.
pub proof fn lemma_get_unknown(s: StoreView, id: Seq<char>)
    requires
        !known(s, id),
    ensures
        get_result(s, id) == Ok::<Option<EntryView>, StoreError>(None),
        get_state(s, id) == s,
{
}

/// After `create` has made an entry and the entry, with whatever header and content it was
/// given meanwhile, has been released, `get` lends an entry out: the entry that was
/// released where it was written, and a new one where it did not pass verification.
pub proof fn lemma_get_after_create(s: StoreView, e: EntryView)
    requires
        create_result(s, e.location) is Ok,
    ensures
        get_result(update_state(create_state(s, e.location), e, true), e.location) == Ok::<
            Option<EntryView>,
            StoreError,
        >(
            Some(
                if verification(e.header) is None {
                    e
                } else {
                    fresh_entry(e.location)
                },
            ),
        ),
{
}

/// While the entry that `create` made is lent out, `get` does not lend it out again.
pub proof fn lemma_get_while_borrowed(s: StoreView, id: Seq<char>)
    requires
        create_result(s, id) is Ok,
    ensures
        get_result(create_state(s, id), id) == Err::<Option<EntryView>, StoreError>(
            StoreError::Locked,
        ),
{
}

/// Where `create` has made an entry, a second `create` of the same id fails with
/// `AlreadyExists` and changes nothing, whether or not the entry was released meanwhile.
pub proof fn lemma_create_twice(s: StoreView, e: EntryView)
    requires
        create_result(s, e.location) is Ok,
    ensures
        create_result(create_state(s, e.location), e.location) == Err::<EntryView, StoreError>(
            StoreError::AlreadyExists,
        ),
        create_state(create_state(s, e.location), e.location) == create_state(s, e.location),
        create_result(update_state(create_state(s, e.location), e, true), e.location) == Err::<
            EntryView,
            StoreError,
        >(StoreError::AlreadyExists),
{
}

/// An entry is lent to one borrower at a time: once `retrieve` has lent an entry out, be it
/// new or not, neither `retrieve` nor `get` lends it out again, and `create` does not make
/// it anew.
pub proof fn lemma_borrow_is_exclusive(s: StoreView, id: Seq<char>)
    requires
        retrieve_result(s, id) is Ok,
    ensures
        borrowed(retrieve_state(s, id), id),
        retrieve_result(retrieve_state(s, id), id) == Err::<EntryView, StoreError>(
            StoreError::Locked,
        ),
        get_result(retrieve_state(s, id), id) == Err::<Option<EntryView>, StoreError>(
            StoreError::Locked,
        ),
        create_result(retrieve_state(s, id), id) == Err::<EntryView, StoreError>(
            StoreError::AlreadyExists,
        ),
{
}

/// After an entry was written back and released, it is no longer lent out, the backend
/// keeps what was written, and `retrieve` lends it out again as it was written.
pub proof fn lemma_release_returns(s: StoreView, e: EntryView)
    requires
        update_result(s, e) is Ok,
    ensures
        !borrowed(update_state(s, e, true), e.location),
        update_state(s, e, true).cache[e.location] == StoreEntryStatus::Present,
        retrieve_result(update_state(s, e, true), e.location) == Ok::<EntryView, StoreError>(e),
{
}

/// Writing an entry back without releasing it leaves it lent out.
pub proof fn lemma_update_keeps_borrow(s: StoreView, e: EntryView)
    requires
        borrowed(s, e.location),
    ensures
        borrowed(update_state(s, e, false), e.location),
        update_state(s, e, false).cache == s.cache,
{
}

/// Releasing an entry a second time changes nothing.
pub proof fn lemma_release_twice(s: StoreView, e: EntryView)
    ensures
        update_state(update_state(s, e, true), e, true) == update_state(s, e, true),
{
    let once = update_state(s, e, true);
    if s.cache.contains_key(e.location) {
        assert(once.cache.insert(e.location, StoreEntryStatus::Present) =~= once.cache);
        if update_result(s, e) is Ok {
            assert(once.files.insert(path_of(once, e.location), (e.header, e.content))
                =~= once.files);
        }
    }
}

/// An entry that does not pass verification is not written: the backend keeps what it kept.
/// Handed back without release, the entry stays lent out; released, it is no longer lent
/// out.
pub proof fn lemma_unverified_is_not_written(s: StoreView, e: EntryView)
    requires
        verification(e.header) is Some,
    ensures
        update_result(s, e) is Err,
        update_state(s, e, false) == s,
        update_state(s, e, true).files == s.files,
        s.cache.contains_key(e.location) ==> update_state(s, e, true).cache[e.location]
            == StoreEntryStatus::Present,
{
}

/// A release ends the borrow whatever becomes of the write: after it, the entry is not lent
/// out, and `retrieve` lends it out again.
pub proof fn lemma_release_ends_borrow(s: StoreView, e: EntryView, reliable: bool, post: StoreView)
    requires
        s.cache.contains_key(e.location),
        released(s, reliable, e, post),
    ensures
        post.cache.contains_key(e.location),
        post.cache[e.location] == StoreEntryStatus::Present,
        !borrowed(post, e.location),
        retrieve_result(post, e.location) is Ok,
        post.location == s.location,
        update_result(s, e) is Err ==> post.files == s.files,
{
}

/// The ids that `entries` hands out are the ids under which the entries were written: the
/// file of an id in normal form lies below the root of the store, and what is left of its
/// path below the root is the id. Left out are ids that begin with the component `.`, which
/// is lost below a root.
pub proof fn lemma_entries_hand_out_ids(s: StoreView, id: Seq<char>)
    requires
        !crate::storeid::is_absolute(id),
        crate::storeid::normalized(id) == id,
        s.location.len() == 0 || !crate::normal_form::leading_dot(id),
    ensures
        crate::storeid::is_under(s.location, path_of(s, id)),
        relative_form(stripped(s.location, path_of(s, id))) == id,
{
    crate::normal_form::lemma_strip_joined(s.location, id);
    crate::storeid::lemma_relative_form(id);
}

/// What the store decides without its backend, it decides on every backend: while an entry
/// is lent out, `retrieve`, `get` and `get_copy` fail with `Locked`, `delete` fails with
/// `Locked`, and the store stays as it is.
pub proof fn lemma_borrowed_is_locked(
    pre: StoreView,
    reliable: bool,
    id: Seq<char>,
    post: StoreView,
    lent: Result<EntryView, StoreError>,
    got: Result<Option<EntryView>, StoreError>,
    copy: Result<EntryView, StoreError>,
    deleted: Result<(), StoreError>,
)
    requires
        borrowed(pre, id),
    ensures
        retrieve_outcome(pre, reliable, id, lent, post) ==> lent == Err::<EntryView, StoreError>(
            StoreError::Locked,
        ) && post == pre,
        get_outcome(pre, reliable, id, got, post) ==> got == Err::<
            Option<EntryView>,
            StoreError,
        >(StoreError::Locked) && post == pre,
        get_copy_outcome(pre, reliable, Ok(id), copy) ==> copy == Err::<EntryView, StoreError>(
            StoreError::Locked,
        ),
        delete_outcome(pre, reliable, id, deleted, post) ==> deleted == Err::<(), StoreError>(
            StoreError::Locked,
        ) && post == pre,
{
}

/// On every backend, `create` of an id that the cache holds fails with `AlreadyExists`, and
/// the store stays as it is.
pub proof fn lemma_create_of_cached(
    pre: StoreView,
    reliable: bool,
    id: Seq<char>,
    r: Result<EntryView, StoreError>,
    post: StoreView,
)
    requires
        pre.cache.contains_key(id),
        create_outcome(pre, reliable, id, r, post),
    ensures
        r == Err::<EntryView, StoreError>(StoreError::AlreadyExists),
        post == pre,
{
}

/// On every backend, a move to an id that the cache holds fails with `AlreadyExists`, a move
/// of an entry that is lent out fails with `Locked`, and the store stays as it is.
pub proof fn lemma_move_decided_by_cache(
    pre: StoreView,
    reliable: bool,
    old_id: Seq<char>,
    new_id: Seq<char>,
    r: Result<(), StoreError>,
    post: StoreView,
)
    requires
        pre.cache.contains_key(new_id) || borrowed(pre, old_id),
        move_outcome(pre, reliable, old_id, new_id, r, post),
    ensures
        pre.cache.contains_key(new_id) ==> r == Err::<(), StoreError>(StoreError::AlreadyExists),
        !pre.cache.contains_key(new_id) ==> r == Err::<(), StoreError>(StoreError::Locked),
        post == pre,
{
}

/// On every backend, handing back an entry that the cache does not hold fails with
/// `NotFound`, and handing back one that does not pass verification fails with
/// `VerificationFailed` and leaves what the backend keeps.
pub proof fn lemma_update_decided_by_store(
    pre: StoreView,
    reliable: bool,
    e: EntryView,
    release: bool,
    r: Result<(), StoreError>,
    post: StoreView,
)
    requires
        !pre.cache.contains_key(e.location) || verification(e.header) is Some,
        update_outcome(pre, reliable, e, release, r, post),
    ensures
        r == update_result(pre, e),
        !pre.cache.contains_key(e.location) ==> r == Err::<(), StoreError>(StoreError::NotFound)
            && post == pre,
        pre.cache.contains_key(e.location) ==> r == Err::<(), StoreError>(
            StoreError::VerificationFailed(verification(e.header)->Some_0),
        ) && post.files == pre.files && post == unwritten_state(pre, e, release),
{
}

/// `delete` of an id that the store does not have fails with `NotFound` and changes nothing.
pub proof fn lemma_delete_unknown(s: StoreView, id: Seq<char>)
    requires
        !known(s, id),
    ensures
        delete_result(s, id) == Err::<(), StoreError>(StoreError::NotFound),
        delete_state(s, id) == s,
{
    assert(s.cache.remove(id) =~= s.cache);
    assert(s.files.remove(path_of(s, id)) =~= s.files);
}

/// After `create` has made an entry and the entry has been written back and released,
/// `delete` succeeds, and after it `get` returns nothing.
pub proof fn lemma_delete_after_create(s: StoreView, e: EntryView)
    requires
        create_result(s, e.location) is Ok,
        update_result(create_state(s, e.location), e) is Ok,
    ensures
        delete_result(update_state(create_state(s, e.location), e, true), e.location) == Ok::<
            (),
            StoreError,
        >(()),
        get_result(
            delete_state(update_state(create_state(s, e.location), e, true), e.location),
            e.location,
        ) == Ok::<Option<EntryView>, StoreError>(None),
{
}

/// While an entry is lent out, `delete` fails with `Locked` and changes nothing.
pub proof fn lemma_delete_while_borrowed(s: StoreView, id: Seq<char>)
    requires
        borrowed(s, id),
    ensures
        delete_result(s, id) == Err::<(), StoreError>(StoreError::Locked),
        delete_state(s, id) == s,
{
}

/// After a move that succeeds, `get` returns nothing for the old id and lends out, under the
/// new id, the entry that the backend kept under the old one.
pub proof fn lemma_move_semantics(s: StoreView, old_id: Seq<char>, new_id: Seq<char>)
    requires
        move_result(s, old_id, new_id) is Ok,
    ensures
        get_result(move_state(s, old_id, new_id), old_id) == Ok::<Option<EntryView>, StoreError>(
            None,
        ),
        get_result(move_state(s, old_id, new_id), new_id) == Ok::<Option<EntryView>, StoreError>(
            Some(
                EntryView {
                    location: new_id,
                    header: s.files[path_of(s, old_id)].0,
                    content: s.files[path_of(s, old_id)].1,
                },
            ),
        ),
{
}

/// After `create` has made an entry and the entry has been written back and released, a
/// move to an id that the store does not have succeeds.
pub proof fn lemma_move_after_create(s: StoreView, e: EntryView, new_id: Seq<char>)
    requires
        create_result(s, e.location) is Ok,
        update_result(create_state(s, e.location), e) is Ok,
        !known(update_state(create_state(s, e.location), e, true), new_id),
    ensures
        move_result(update_state(create_state(s, e.location), e, true), e.location, new_id)
            == Ok::<(), StoreError>(()),
{
}

/// A move to an id that the store has already fails and changes nothing.
pub proof fn lemma_move_to_known(s: StoreView, old_id: Seq<char>, new_id: Seq<char>)
    requires
        known(s, new_id),
    ensures
        move_result(s, old_id, new_id) is Err,
        move_state(s, old_id, new_id) == s,
{
}

/// A flush keeps every slot that is lent out, lent out, drops every other slot, and leaves
/// the backend as it is.
pub proof fn lemma_flush_keeps_borrowed(s: StoreView, id: Seq<char>)
    ensures
        borrowed(s, id) ==> borrowed(flush_state(s), id),
        !borrowed(s, id) ==> !flush_state(s).cache.contains_key(id),
        flush_state(s).files == s.files,
        flush_state(s).location == s.location,
{
}

/// While an entry is lent out, before or after a flush, it is not lent out again.
pub proof fn lemma_flush_keeps_exclusive(s: StoreView, id: Seq<char>)
    requires
        borrowed(s, id),
    ensures
        retrieve_result(flush_state(s), id) == Err::<EntryView, StoreError>(StoreError::Locked),
{
}

/// After a flush of a store in which nothing is lent out, the cache is empty.
pub proof fn lemma_flush_empties(s: StoreView)
    requires
        forall|id: Seq<char>| !borrowed(s, id),
    ensures
        flush_state(s).cache == Map::<Seq<char>, StoreEntryStatus>::empty(),
        flush_state(s).cache.dom().len() == 0,
{
    assert forall|id: Seq<char>| !flush_state(s).cache.contains_key(id) by {
        assert(!borrowed(s, id));
    }
    assert(flush_state(s).cache =~= Map::<Seq<char>, StoreEntryStatus>::empty());
}

/// A flush does not lose an entry: what `get` returned before for an entry that is not lent
/// out, it returns after.
pub proof fn lemma_flush_keeps_entries(s: StoreView, id: Seq<char>)
    requires
        !borrowed(s, id),
        s.files.contains_key(path_of(s, id)),
    ensures
        get_result(flush_state(s), id) == get_result(s, id),
{
}

/// Whether the configuration allows to create the root of a store that is missing. Without
/// a configuration it does not; a configuration says so under `store`, `implicit-create`.
pub open spec fn implicit_create(config: Option<Tree>) -> Result<bool, StoreError> {
    match config {
        None => Ok(false),
        Some(t) => match lookup(t, "store"@) {
            Some(section) => match lookup(section, "implicit-create"@) {
                Some(Tree::Boolean(b)) => Ok(b),
                _ => Err(StoreError::Configuration),
            },
            None => Err(StoreError::Configuration),
        },
    }
}

/// The view of an optional configuration.
pub open spec fn config_view(config: Option<HeaderValue>) -> Option<Tree> {
    match config {
        Some(t) => Some(t@),
        None => None,
    }
}

/// Whether the configuration allows to create the root of a store that is missing.
pub fn config_implicit_store_create_allowed(config: &Option<HeaderValue>) -> (r: Result<
    bool,
    StoreError,
>)
    ensures
        r == implicit_create(config_view(*config)),
{
    match config {
        None => Ok(false),
        Some(t) => match t.get("store") {
            Some(section) => match section.get("implicit-create") {
                Some(v) => match v.as_bool() {
                    Some(b) => Ok(b),
                    None => Err(StoreError::Configuration),
                },
                None => Err(StoreError::Configuration),
            },
            None => Err(StoreError::Configuration),
        },
    }
}

/// An entry that the store has lent out. Header and content are changed through it, and
/// the store takes it back with `release`.
#[derive(Debug)]
pub struct FileLockEntry {
    entry: Entry,
}

impl View for FileLockEntry {
    type V = EntryView;

    closed spec fn view(&self) -> EntryView {
        self.entry@
    }
}

impl FileLockEntry {
    fn new(entry: Entry) -> (r: FileLockEntry)
        ensures
            r@ == entry@,
    {
        FileLockEntry { entry }
    }

    /// The entry that is lent out.
    pub fn entry(&self) -> (r: &Entry)
        ensures
            r@ == self@,
    {
        &self.entry
    }

    /// The entry that is lent out, to be changed.
    pub fn entry_mut(&mut self) -> (r: &mut Entry)
        ensures
            r@ == old(self)@,
            final(self)@ == final(r)@,
    {
        &mut self.entry
    }

    /// Where the entry lives.
    pub fn get_location(&self) -> (r: &StoreId)
        ensures
            r@ == self@.location,
    {
        self.entry.get_location()
    }

    /// The header.
    pub fn get_header(&self) -> (r: &HeaderValue)
        ensures
            r@ == self@.header,
    {
        self.entry.get_header()
    }

    /// The content.
    pub fn get_content(&self) -> (r: &String)
        ensures
            r@ == self@.content,
    {
        self.entry.get_content()
    }

    /// Puts `header` in the place of the header.
    pub fn set_header(&mut self, header: HeaderValue)
        ensures
            final(self)@ == (EntryView { header: header@, ..old(self)@ }),
    {
        self.entry.set_header(header);
    }

    /// Puts `content` in the place of the content.
    pub fn set_content(&mut self, content: String)
        ensures
            final(self)@ == (EntryView { content: content@, ..old(self)@ }),
    {
        self.entry.set_content(content);
    }

    /// Checks the header against the structural rules.
    pub fn verify(&self) -> (r: Result<(), StoreError>)
        ensures
            r == match verification(self@.header) {
                Some(f) => Err::<(), StoreError>(StoreError::VerificationFailed(f)),
                None => Ok::<(), StoreError>(()),
            },
    {
        self.entry.verify()
    }
}

/// The result of an operation that lends out an entry, without the handle.
pub open spec fn lent(r: Result<FileLockEntry, StoreError>) -> Result<EntryView, StoreError> {
    match r {
        Ok(h) => Ok(h@),
        Err(e) => Err(e),
    }
}

/// The result of an operation that may lend out an entry, without the handle.
pub open spec fn maybe_lent(r: Result<Option<FileLockEntry>, StoreError>) -> Result<
    Option<EntryView>,
    StoreError,
> {
    match r {
        Ok(Some(h)) => Ok(Some(h@)),
        Ok(None) => Ok(None),
        Err(e) => Err(e),
    }
}

/// The statuses of the slots in `slots`.
pub open spec fn statuses(slots: Map<Seq<char>, SlotView>) -> Map<Seq<char>, StoreEntryStatus> {
    Map::new(|k: Seq<char>| slots.contains_key(k), |k: Seq<char>| slots[k].status)
}

/// The store: its root, the cache of its slots, and its backend.
pub struct Store<B: FileAbstraction> {
    location: String,
    entries: StringMap<StoreEntry>,
    backend: B,
}

impl<B: FileAbstraction> View for Store<B> {
    type V = StoreView;

    closed spec fn view(&self) -> StoreView {
        StoreView {
            location: self.location@,
            cache: statuses(self.entries@),
            files: self.backend.files(),
        }
    }
}

impl<B: FileAbstraction> Store<B> {
    /// The store is in order: no id occurs twice in the cache, each slot is kept under its
    /// own id and knows its place at the backend, and the backend is in order.
    pub closed spec fn wf(&self) -> bool {
        &&& self.entries.wf()
        &&& self.backend.wf()
        &&& forall|k: Seq<char>| #[trigger]
            self.entries@.contains_key(k) ==> self.entries@[k].id == k && self.entries@[k].file
                == join(self.location@, k)
    }

    /// Whether the backend fails only where its files call for it.
    pub closed spec fn backend_reliable(&self) -> bool {
        self.backend.reliable()
    }

    /// Opens a store at `location` on `backend`. Where nothing is at `location`, the root is
    /// made if the configuration allows it; where a file is there, the store cannot be
    /// opened.
    pub fn new_with_backend(
        location: String,
        location_state: LocationState,
        store_config: &Option<HeaderValue>,
        backend: B,
    ) -> (r: Result<Store<B>, StoreError>)
        requires
            backend.wf(),
        ensures
            match r {
                Ok(s) => s.wf() && s.backend_reliable() == backend.reliable() && s@ == (StoreView {
                    location: location@,
                    cache: Map::empty(),
                    files: backend.files(),
                }) && (location_state == LocationState::Directory || (location_state
                    == LocationState::Missing && implicit_create(config_view(*store_config))
                    == Ok::<bool, StoreError>(true))),
                Err(e) => match location_state {
                    LocationState::Directory => false,
                    LocationState::File => e == StoreError::AlreadyExists,
                    LocationState::Missing => match implicit_create(config_view(*store_config)) {
                        Err(c) => e == c,
                        Ok(false) => e == StoreError::BackendIo,
                        Ok(true) => e == StoreError::BackendIo && !backend.reliable(),
                    },
                },
            },
    {
        let mut backend = backend;
        match location_state {
            LocationState::Missing => {
                match config_implicit_store_create_allowed(store_config) {
                    Err(e) => {
                        return Err(e);
                    },
                    Ok(false) => {
                        return Err(StoreError::BackendIo);
                    },
                    Ok(true) => {},
                }
                match backend.create_dir_all(location.as_str()) {
                    Err(_) => {
                        return Err(StoreError::BackendIo);
                    },
                    Ok(()) => {},
                }
            },
            LocationState::File => {
                return Err(StoreError::AlreadyExists);
            },
            LocationState::Directory => {},
        }
        let store = Store { location, entries: StringMap::new(), backend };
        assert(store@.cache =~= Map::empty());
        Ok(store)
    }

    /// The place of the root of the store.
    pub fn path(&self) -> (r: &String)
        ensures
            r@ == self@.location,
    {
        &self.location
    }

    /// The place of the entry `id` at the backend.
    fn file_of(&self, id: &StoreId) -> (r: String)
        ensures
            r@ == path_of(self@, id@),
    {
        join_paths(self.location.as_str(), id.local().as_str())
    }

    /// Whether the store has the entry `id`, in its cache or at its backend.
    pub fn entry_exists(&self, id: StoreId) -> (r: Result<bool, StoreError>)
        requires
            self.wf(),
        ensures
            match r {
                Ok(b) => b == known(self@, id@),
                Err(e) => e == StoreError::BackendIo && !self.backend_reliable()
                    && !self@.cache.contains_key(id@),
            },
    {
        if self.entries.contains_key(id.local().as_str()) {
            return Ok(true);
        }
        let file = self.file_of(&id);
        self.backend.path_exists(file.as_str())
    }

    /// Makes the entry `id` and lends it out. Fails where `id` turns into no id, and where
    /// the store has the id already.
    pub fn create<S: IntoStoreId>(&mut self, id: S) -> (r: Result<FileLockEntry, StoreError>)
        requires
            old(self).wf(),
        ensures
            final(self).wf(),
            final(self).backend_reliable() == old(self).backend_reliable(),
            create_from_outcome(
                old(self)@,
                old(self).backend_reliable(),
                id.id_text(),
                lent(r),
                final(self)@,
            ),
    {
        let id = match id.into_storeid() {
            Err(e) => {
                return Err(e);
            },
            Ok(id) => id,
        };
        match self.entry_exists(id.duplicate()) {
            Err(e) => {
                return Err(e);
            },
            Ok(true) => {
                return Err(StoreError::AlreadyExists);
            },
            Ok(false) => {},
        }
        let slot = StoreEntry {
            id: id.duplicate(),
            file: self.file_of(&id),
            status: StoreEntryStatus::Borrowed,
        };
        self.entries.insert(id.local_display_string(), slot);
        proof {
            assert(self@.cache =~= old(self)@.cache.insert(id@, StoreEntryStatus::Borrowed));
        }
        Ok(FileLockEntry::new(Entry::new(id)))
    }

    /// Whether the slot of `id` is lent out, where the cache has one.
    pub fn status_of(&self, id: &StoreId) -> (r: Option<StoreEntryStatus>)
        requires
            self.wf(),
        ensures
            match r {
                Some(status) => self@.cache.contains_key(id@) && self@.cache[id@] == status,
                None => !self@.cache.contains_key(id@),
            },
    {
        match self.entries.get(id.local().as_str()) {
            Some(slot) => Some(slot.status),
            None => None,
        }
    }

    /// Puts a slot with `status` under `id`.
    fn set_slot(&mut self, id: &StoreId, status: StoreEntryStatus)
        requires
            old(self).wf(),
        ensures
            final(self).wf(),
            final(self).backend_reliable() == old(self).backend_reliable(),
            final(self)@ == (StoreView { cache: old(self)@.cache.insert(id@, status), ..old(self)@ }),
    {
        let mut slot = StoreEntry::new(self.location.as_str(), id.duplicate());
        slot.status = status;
        self.entries.insert(id.local_display_string(), slot);
        proof {
            assert(self@.cache =~= old(self)@.cache.insert(id@, status));
        }
    }

    /// Takes the slot of `id` out of the cache.
    fn drop_slot(&mut self, id: &StoreId)
        requires
            old(self).wf(),
        ensures
            final(self).wf(),
            final(self).backend_reliable() == old(self).backend_reliable(),
            final(self)@ == (StoreView { cache: old(self)@.cache.remove(id@), ..old(self)@ }),
    {
        let _ = self.entries.remove(id.local().as_str());
        proof {
            assert(self@.cache =~= old(self)@.cache.remove(id@));
        }
    }

    /// Lends out the entry `id`: the entry that the backend keeps, or a new one where it
    /// keeps none. Fails where `id` turns into no id, and where the entry is lent out
    /// already.
    pub fn retrieve<S: IntoStoreId>(&mut self, id: S) -> (r: Result<FileLockEntry, StoreError>)
        requires
            old(self).wf(),
        ensures
            final(self).wf(),
            final(self).backend_reliable() == old(self).backend_reliable(),
            retrieve_from_outcome(
                old(self)@,
                old(self).backend_reliable(),
                id.id_text(),
                lent(r),
                final(self)@,
            ),
    {
        let id = match id.into_storeid() {
            Err(e) => {
                return Err(e);
            },
            Ok(id) => id,
        };
        let new_se = StoreEntry::new(self.location.as_str(), id.duplicate());
        let entry = match self.entries.get(id.local().as_str()) {
            Some(se) => se.get_entry(&self.backend),
            None => new_se.get_entry(&self.backend),
        };
        match entry {
            Err(e) => Err(e),
            Ok(entry) => {
                self.set_slot(&id, StoreEntryStatus::Borrowed);
                Ok(FileLockEntry::new(entry))
            },
        }
    }

    /// Lends out the entry `id` if the store has it, in its cache or at its backend. Fails
    /// where `id` turns into no id.
    pub fn get<S: IntoStoreId>(&mut self, id: S) -> (r: Result<
        Option<FileLockEntry>,
        StoreError,
    >)
        requires
            old(self).wf(),
        ensures
            final(self).wf(),
            final(self).backend_reliable() == old(self).backend_reliable(),
            get_from_outcome(
                old(self)@,
                old(self).backend_reliable(),
                id.id_text(),
                maybe_lent(r),
                final(self)@,
            ),
    {
        let id = match id.into_storeid() {
            Err(e) => {
                return Err(e);
            },
            Ok(id) => id,
        };
        match self.entry_exists(id.duplicate()) {
            Err(e) => {
                return Err(e);
            },
            Ok(false) => {
                return Ok(None);
            },
            Ok(true) => {},
        }
        match self.retrieve(id) {
            Ok(handle) => Ok(Some(handle)),
            Err(e) => Err(e),
        }
    }

    /// Writes the entry of `entry` to the backend, after verifying it. The entry stays lent
    /// out. It has to be an entry that this store has lent out and not taken back.
    pub fn update(&mut self, entry: &mut FileLockEntry) -> (r: Result<(), StoreError>)
        requires
            old(self).wf(),
            old(self)@.cache.contains_key(old(entry)@.location) ==> borrowed(
                old(self)@,
                old(entry)@.location,
            ),
        ensures
            final(self).wf(),
            final(self).backend_reliable() == old(self).backend_reliable(),
            final(entry)@ == old(entry)@,
            update_outcome(
                old(self)@,
                old(self).backend_reliable(),
                old(entry)@,
                false,
                r,
                final(self)@,
            ),
    {
        self._update(entry, false)
    }

    /// Writes the entry of `entry` to the backend, after verifying it, and with
    /// `modify_presence` notes that the entry is no longer lent out, be it written or not.
    fn _update(&mut self, entry: &FileLockEntry, modify_presence: bool) -> (r: Result<
        (),
        StoreError,
    >)
        requires
            old(self).wf(),
            old(self)@.cache.contains_key(entry@.location) ==> borrowed(
                old(self)@,
                entry@.location,
            ),
        ensures
            final(self).wf(),
            final(self).backend_reliable() == old(self).backend_reliable(),
            update_outcome(
                old(self)@,
                old(self).backend_reliable(),
                entry@,
                modify_presence,
                r,
                final(self)@,
            ),
    {
        let id = entry.get_location();
        let se = match self.entries.get(id.local().as_str()) {
            None => {
                return Err(StoreError::NotFound);
            },
            Some(se) => se,
        };
        let written = match entry.verify() {
            Err(e) => Err(e),
            Ok(()) => se.write_entry(&mut self.backend, entry.entry()),
        };
        if modify_presence {
            self.set_slot(id, StoreEntryStatus::Present);
        }
        match written {
            Ok(()) => Ok(()),
            Err(e) => Err(e),
        }
    }

    /// Takes back an entry that this store has lent out: writes it to the backend, after
    /// verifying it, and notes that it is no longer lent out. Where the entry does not pass
    /// verification or cannot be written, the backend keeps what it kept, nobody is told,
    /// and the entry is no longer lent out all the same.
    pub fn release(&mut self, entry: FileLockEntry)
        requires
            old(self).wf(),
            old(self)@.cache.contains_key(entry@.location) ==> borrowed(
                old(self)@,
                entry@.location,
            ),
        ensures
            final(self).wf(),
            final(self).backend_reliable() == old(self).backend_reliable(),
            released(old(self)@, old(self).backend_reliable(), entry@, final(self)@),
    {
        let _ = self._update(&entry, true);
    }

    /// The number of slots in the cache.
    pub fn cache_size(&self) -> (r: Result<usize, StoreError>)
        requires
            self.wf(),
        ensures
            r is Ok,
            self@.cache.dom().finite(),
            r->Ok_0 == self@.cache.dom().len(),
    {
        proof {
            self.entries.lemma_keys();
            assert(self@.cache.dom() =~= self.entries@.dom());
        }
        Ok(self.entries.len())
    }

    /// The number of slots that the cache has room for.
    pub fn cache_capacity(&self) -> (r: Result<usize, StoreError>)
        requires
            self.wf(),
        ensures
            r is Ok,
            r->Ok_0 >= self@.cache.dom().len(),
    {
        proof {
            assert(self@.cache.dom() =~= self.entries@.dom());
        }
        Ok(self.entries.capacity())
    }

    /// A copy of the entry `id` as the backend keeps it, or a new entry where it keeps none.
    /// Fails where `id` turns into no id, and where the entry is lent out.
    pub fn get_copy<S: IntoStoreId>(&self, id: S) -> (r: Result<Entry, StoreError>)
        requires
            self.wf(),
        ensures
            get_copy_outcome(self@, self.backend_reliable(), id.id_text(), copied(r)),
    {
        let id = match id.into_storeid() {
            Err(e) => {
                return Err(e);
            },
            Ok(id) => id,
        };
        match self.status_of(&id) {
            Some(StoreEntryStatus::Borrowed) => {
                return Err(StoreError::Locked);
            },
            _ => {},
        }
        StoreEntry::new(self.location.as_str(), id).get_entry(&self.backend)
    }

    /// Drops from the cache every slot that is not lent out, and gives back the room that
    /// the cache no longer needs.
    pub fn flush_cache(&mut self) -> (r: Result<(), StoreError>)
        requires
            old(self).wf(),
        ensures
            final(self).wf(),
            final(self).backend_reliable() == old(self).backend_reliable(),
            r is Ok,
            final(self)@ == flush_state(old(self)@),
    {
        let mut to_flush: Vec<String> = Vec::new();
        let n = self.entries.len();
        let mut i: usize = 0;
        proof {
            self.entries.lemma_keys();
        }
        while i < n
            invariant
                self.wf(),
                n == self.entries.keys().len(),
                self.entries.keys().to_set() == self.entries@.dom(),
                i <= n,
                forall|t: int|
                    0 <= t < to_flush@.len() ==> present_ids(self@).contains(
                        #[trigger] to_flush@[t]@,
                    ),
                forall|j: int|
                    0 <= j < i && present_ids(self@).contains(#[trigger] self.entries.keys()[j])
                        ==> exists|t: int| 0 <= t < to_flush@.len() && #[trigger] to_flush@[t]@
                        == self.entries.keys()[j],
            decreases n - i,
        {
            let slot = self.entries.value_at(i);
            let key = self.entries.key_at(i);
            if slot.status == StoreEntryStatus::Present {
                let ghost before = to_flush@;
                to_flush.push(key.clone());
                proof {
                    assert forall|j: int|
                        0 <= j < i + 1 && present_ids(self@).contains(
                            #[trigger] self.entries.keys()[j],
                        ) implies exists|t: int|
                        0 <= t < to_flush@.len() && #[trigger] to_flush@[t]@
                            == self.entries.keys()[j] by {
                        if j < i {
                            let t = choose|t: int|
                                0 <= t < before.len() && #[trigger] before[t]@
                                    == self.entries.keys()[j];
                            assert(to_flush@[t]@ == self.entries.keys()[j]);
                        } else {
                            assert(to_flush@[to_flush@.len() - 1]@ == self.entries.keys()[j]);
                        }
                    }
                }
            }
            i = i + 1;
        }
        proof {
            assert forall|k: Seq<char>| present_ids(self@).contains(k) implies exists|t: int|
                0 <= t < to_flush@.len() && #[trigger] to_flush@[t]@ == k by {
                assert(self.entries@.dom().contains(k));
                assert(self.entries.keys().to_set().contains(k));
                let j = choose|j: int|
                    0 <= j < self.entries.keys().len() && self.entries.keys()[j] == k;
                assert(present_ids(self@).contains(self.entries.keys()[j]));
            }
        }
        let ghost start = self.entries@;
        let mut j: usize = 0;
        while j < to_flush.len()
            invariant
                j <= to_flush@.len(),
                self.entries.wf(),
                self.backend.wf(),
                self.location == old(self).location,
                self.backend == old(self).backend,
                start == old(self).entries@,
                self.entries@ == start.remove_keys(
                    Set::new(
                        |k: Seq<char>| exists|t: int| 0 <= t < j && #[trigger] to_flush@[t]@ == k,
                    ),
                ),
            decreases to_flush@.len() - j,
        {
            let ghost done = Set::new(
                |k: Seq<char>| exists|t: int| 0 <= t < j && #[trigger] to_flush@[t]@ == k,
            );
            let ghost next = Set::new(
                |k: Seq<char>| exists|t: int| 0 <= t < j + 1 && #[trigger] to_flush@[t]@ == k,
            );
            let _ = self.entries.remove(to_flush[j].as_str());
            proof {
                assert forall|k: Seq<char>| next.contains(k) == (done.contains(k) || k
                    == to_flush@[j as int]@) by {
                    if done.contains(k) {
                        let t = choose|t: int| 0 <= t < j && #[trigger] to_flush@[t]@ == k;
                        assert(to_flush@[t]@ == k);
                    }
                    if k == to_flush@[j as int]@ {
                        assert(to_flush@[j as int]@ == k);
                    }
                }
                assert(self.entries@ =~= start.remove_keys(next));
            }
            j = j + 1;
        }
        self.entries.shrink_to_fit();
        proof {
            let flushed = Set::new(
                |k: Seq<char>|
                    exists|t: int| 0 <= t < to_flush@.len() && #[trigger] to_flush@[t]@ == k,
            );
            assert(flushed =~= present_ids(old(self)@));
            assert(self@.cache =~= old(self)@.cache.remove_keys(present_ids(old(self)@)));
        }
        Ok(())
    }

    /// Deletes the entry `id` from the cache and from the backend. Fails where `id` turns
    /// into no id, where the entry is lent out, and where the store does not have it.
    pub fn delete<S: IntoStoreId>(&mut self, id: S) -> (r: Result<(), StoreError>)
        requires
            old(self).wf(),
        ensures
            final(self).wf(),
            final(self).backend_reliable() == old(self).backend_reliable(),
            delete_from_outcome(
                old(self)@,
                old(self).backend_reliable(),
                id.id_text(),
                r,
                final(self)@,
            ),
    {
        let id = match id.into_storeid() {
            Err(e) => {
                return Err(e);
            },
            Ok(id) => id,
        };
        let file = self.file_of(&id);
        match self.status_of(&id) {
            Some(StoreEntryStatus::Borrowed) => {
                return Err(StoreError::Locked);
            },
            Some(StoreEntryStatus::Present) => {
                self.drop_slot(&id);
            },
            None => {
                proof {
                    assert(self@.cache.remove(id@) =~= self@.cache);
                }
                match self.backend.path_exists(file.as_str()) {
                    Err(e) => {
                        return Err(e);
                    },
                    Ok(false) => {
                        proof {
                            assert(self@.files.remove(path_of(self@, id@)) =~= self@.files);
                        }
                        return Err(StoreError::NotFound);
                    },
                    Ok(true) => {},
                }
            },
        }
        match self.backend.remove_file(file.as_str()) {
            Err(_) => {
                proof {
                    if old(self).backend_reliable() {
                        assert(old(self)@.files.remove(path_of(old(self)@, id@)) =~= old(self)@.files);
                    }
                }
                Err(StoreError::BackendIo)
            },
            Ok(()) => Ok(()),
        }
    }

    /// Saves a copy of the entry of `entry`, as the backend keeps it, under `new_id`. Fails
    /// where the store has `new_id` already.
    pub fn save_to(&mut self, entry: &FileLockEntry, new_id: StoreId) -> (r: Result<
        (),
        StoreError,
    >)
        requires
            old(self).wf(),
        ensures
            final(self).wf(),
            final(self).backend_reliable() == old(self).backend_reliable(),
            save_to_outcome(
                old(self)@,
                old(self).backend_reliable(),
                entry@.location,
                new_id@,
                r,
                final(self)@,
            ),
    {
        self.save_to_other_location(entry, new_id, false)
    }

    /// Saves the entry of `entry`, as the backend keeps it, under `new_id` and removes it
    /// under its own id: there the backend no longer keeps it and the cache no longer holds
    /// it. Fails where the store has `new_id` already; the entry is then taken back as by
    /// `release`. The entry has to be one that this store has lent out and not taken back.
    pub fn save_as(&mut self, entry: FileLockEntry, new_id: StoreId) -> (r: Result<
        (),
        StoreError,
    >)
        requires
            old(self).wf(),
            old(self)@.cache.contains_key(entry@.location) ==> borrowed(
                old(self)@,
                entry@.location,
            ),
        ensures
            final(self).wf(),
            final(self).backend_reliable() == old(self).backend_reliable(),
            save_as_outcome(
                old(self)@,
                old(self).backend_reliable(),
                entry@,
                new_id@,
                r,
                final(self)@,
            ),
    {
        match self.save_to_other_location(&entry, new_id, true) {
            Err(e) => {
                self.release(entry);
                Err(e)
            },
            Ok(()) => {
                self.drop_slot(entry.get_location());
                Ok(())
            },
        }
    }

    /// Copies the entry of `entry`, as the backend keeps it, to `new_id`, and with
    /// `remove_old` removes it at the backend under its own id. The cache stays as it is.
    fn save_to_other_location(
        &mut self,
        entry: &FileLockEntry,
        new_id: StoreId,
        remove_old: bool,
    ) -> (r: Result<(), StoreError>)
        requires
            old(self).wf(),
        ensures
            final(self).wf(),
            final(self).backend_reliable() == old(self).backend_reliable(),
            final(self)@.cache == old(self)@.cache,
            final(self)@.location == old(self)@.location,
            (r == save_result(old(self)@, entry@.location, new_id@) && final(self)@.files
                == saved_files(old(self)@, entry@.location, new_id@, remove_old)) || (!old(self).backend_reliable() && !old(self)@.cache.contains_key(new_id@) && r == Err::<
                (),
                StoreError,
            >(StoreError::BackendIo) && (final(self)@.files == old(self)@.files || (remove_old
                && save_result(old(self)@, entry@.location, new_id@) is Ok && final(self)@.files
                == saved_files(old(self)@, entry@.location, new_id@, false)))),
    {
        match self.entry_exists(new_id.duplicate()) {
            Err(e) => {
                return Err(e);
            },
            Ok(true) => {
                return Err(StoreError::AlreadyExists);
            },
            Ok(false) => {},
        }
        let old_id_as_path = self.file_of(entry.get_location());
        let new_id_as_path = self.file_of(&new_id);
        match self.backend.copy(old_id_as_path.as_str(), new_id_as_path.as_str()) {
            Err(_) => {
                return Err(StoreError::BackendIo);
            },
            Ok(()) => {},
        }
        if remove_old {
            match self.backend.remove_file(old_id_as_path.as_str()) {
                Err(_) => Err(StoreError::BackendIo),
                Ok(()) => Ok(()),
            }
        } else {
            Ok(())
        }
    }

    /// Moves the entry `old_id` to `new_id` without lending it out. Fails where the store
    /// has `new_id` already, where the entry is lent out, and where the backend does not
    /// keep it.
    pub fn move_by_id(&mut self, old_id: StoreId, new_id: StoreId) -> (r: Result<(), StoreError>)
        requires
            old(self).wf(),
        ensures
            final(self).wf(),
            final(self).backend_reliable() == old(self).backend_reliable(),
            move_outcome(
                old(self)@,
                old(self).backend_reliable(),
                old_id@,
                new_id@,
                r,
                final(self)@,
            ),
    {
        match self.status_of(&new_id) {
            Some(_) => {
                return Err(StoreError::AlreadyExists);
            },
            None => {},
        }
        let status = self.status_of(&old_id);
        match status {
            Some(StoreEntryStatus::Borrowed) => {
                return Err(StoreError::Locked);
            },
            _ => {},
        }
        let old_file = self.file_of(&old_id);
        let new_file = self.file_of(&new_id);
        match self.backend.path_exists(new_file.as_str()) {
            Err(e) => {
                return Err(e);
            },
            Ok(true) => {
                return Err(StoreError::AlreadyExists);
            },
            Ok(false) => {},
        }
        match self.backend.rename(old_file.as_str(), new_file.as_str()) {
            Err(_) => {
                return Err(StoreError::BackendIo);
            },
            Ok(()) => {},
        }
        match status {
            Some(st) => {
                self.drop_slot(&old_id);
                self.set_slot(&new_id, st);
            },
            None => {},
        }
        Ok(())
    }

    /// The ids of all entries that the backend keeps below the root of the store.
    pub fn entries(&self) -> (r: Result<StoreIdIterator, StoreError>)
        requires
            self.wf(),
        ensures
            match r {
                Ok(ids) => enumerates(ids.remaining(), self@.files, self@.location),
                Err(e) => e == StoreError::BackendIo && !self.backend_reliable(),
            },
    {
        let paths = match self.backend.pathes_recursively(self.location.as_str()) {
            Err(e) => {
                return Err(e);
            },
            Ok(paths) => paths,
        };
        let mut items: Vec<Result<StoreId, StoreError>> = Vec::new();
        let mut i: usize = 0;
        while i < paths.len()
            invariant
                i <= paths@.len(),
                items@.len() == i,
                lists_files(paths@, self@.files, self@.location),
                self@.location == self.location@,
                forall|j: int|
                    0 <= j < i ==> crate::storeid::id_result_view(#[trigger] items@[j]) == Ok::<
                        Seq<char>,
                        StoreError,
                    >(relative_form(stripped(self@.location, paths@[j]@))),
            decreases paths@.len() - i,
        {
            assert(self@.files.contains_key(paths@[i as int]@));
            let item = match StoreIdWithBase::from_full_path(&self.location, paths[i].as_str()) {
                Ok(id) => Ok(id.without_base()),
                Err(e) => Err(e),
            };
            items.push(item);
            i = i + 1;
        }
        let ids = StoreIdIterator::new(items);
        proof {
            assert(lists_files(paths@, self@.files, self@.location));
        }
        Ok(ids)
    }
}

} // verus!

//! References in a store: entries that stand for files, kept under the hash of the file.
use vstd::prelude::*;
use crate::entry::EntryView;
use crate::error::StoreError;
use crate::file_abstraction::FileAbstraction;
use crate::hasher::Hasher;
use crate::reference::{make_ref_result, Config, Ref, RefError};
use crate::store::{
    create_result, create_state, get_outcome, get_result, get_state, maybe_lent, released,
    FileLockEntry, Store, StoreView,
};
use crate::storeid::{is_absolute, normalized, StoreId};

verus! {

/// A way to find the id under which the reference to a file is kept: a collection, and a
/// text that is unique to the file.
pub trait UniqueRefPathGenerator {
    /// The collection in which the references are kept. It is for the generator to say
    /// what it is.
    open spec fn collection_text() -> Seq<char> {
        arbitrary()
    }

    /// The text that is unique to a file with the content `content`, where there is one. It
    /// is for the generator to say what it is.
    open spec fn unique_hash_text(content: Seq<char>) -> Option<Seq<char>> {
        arbitrary()
    }

    /// What becomes of the id `sid` in the end. It is for the generator to say what.
    open spec fn postprocessed(sid: Seq<char>) -> Result<Seq<char>, StoreError> {
        arbitrary()
    }

    /// The collection in which the references are kept: the first component of their ids.
    fn collection() -> (r: &'static str)
        ensures
            r@ == Self::collection_text(),
    ;

    /// A text that is unique to the file with the content `content`.
    fn unique_hash(content: &str) -> (r: Option<String>)
        ensures
            match r {
                Some(h) => Self::unique_hash_text(content@) == Some(h@),
                None => Self::unique_hash_text(content@) is None,
            },
    ;

    /// Has the last word on the id.
    fn postprocess_storeid(sid: StoreId) -> (r: Result<StoreId, StoreError>)
        ensures
            crate::storeid::id_result_view(r) == Self::postprocessed(sid@),
    ;
}

/// What can go wrong with a reference in a store.
#[derive(Debug, Clone, Copy, PartialEq, Eq, Structural)]
pub enum RefStoreError {
    /// The store failed.
    Store(StoreError),
    /// The entry could not be made a reference.
    Ref(RefError),
    /// The file could not be hashed.
    HashFailed,
}

/// The path of the reference with the hash `hash` in `collection`.
pub open spec fn ref_path(collection: Seq<char>, hash: Seq<char>) -> Seq<char> {
    collection + seq!['/'] + hash
}

/// The id of the reference with the hash `hash`: the collection of the generator, then the
/// hash. Fails where that is an absolute path.
pub fn ref_id<RPG: UniqueRefPathGenerator>(hash: &str) -> (r: Result<StoreId, StoreError>)
    ensures
        is_absolute(ref_path(RPG::collection_text(), hash@)) ==> r == Err::<StoreId, StoreError>(
            StoreError::InvalidId,
        ),
        !is_absolute(ref_path(RPG::collection_text(), hash@)) ==> r is Ok && r->Ok_0@
            == normalized(ref_path(RPG::collection_text(), hash@)),
{
    let mut path = RPG::collection().to_owned();
    proof {
        reveal_strlit("/");
        assert("/"@ =~= seq!['/']);
    }
    path.append("/");
    path.append(hash);
    StoreId::new(path)
}

/// The outcome of `create_ref` on a store: the handle of the new reference, or why there is
/// none.
pub open spec fn created_ref(r: Result<FileLockEntry, RefStoreError>) -> Result<
    EntryView,
    RefStoreError,
> {
    match r {
        Ok(h) => Ok(h@),
        Err(e) => Err(e),
    }
}

/// What `create_ref` may leave behind. In turn: the content has a hash; the hash makes an
/// id; the store does not have the id, so that a new entry is made; the entry can be made a
/// reference. Where the last step fails, the store takes the new entry back. Where the
/// cache does not hold the id and the backend, which is then asked, is not reliable, the
/// store may also fail and stay as it is.
pub open spec fn create_ref_outcome<RPG: UniqueRefPathGenerator, H: Hasher>(
    pre: StoreView,
    reliable: bool,
    path: Seq<char>,
    collection: Seq<char>,
    config: Map<Seq<char>, Seq<char>>,
    content: Seq<char>,
    r: Result<EntryView, RefStoreError>,
    post: StoreView,
) -> bool {
    match RPG::unique_hash_text(content) {
        None => r == Err::<EntryView, RefStoreError>(RefStoreError::HashFailed) && post == pre,
        Some(hash) => if is_absolute(ref_path(RPG::collection_text(), hash)) {
            r == Err::<EntryView, RefStoreError>(RefStoreError::Store(StoreError::InvalidId))
                && post == pre
        } else {
            let sid = normalized(ref_path(RPG::collection_text(), hash));
            ||| !reliable && !pre.cache.contains_key(sid) && r == Err::<EntryView, RefStoreError>(
                RefStoreError::Store(StoreError::BackendIo),
            ) && post == pre
            ||| match create_result(pre, sid) {
                Err(e) => r == Err::<EntryView, RefStoreError>(RefStoreError::Store(e)) && post
                    == pre,
                Ok(fresh) => match make_ref_result::<H>(
                    fresh.header,
                    path,
                    collection,
                    config,
                    Some(content),
                    false,
                ) {
                    Ok(()) => r == Ok::<EntryView, RefStoreError>(
                        EntryView {
                            header: crate::reference::with_ref_section(
                                fresh.header,
                                crate::reference::header_section(
                                    H::hash_text(content)->Some_0,
                                    H::name_text(),
                                    path,
                                    collection,
                                ),
                            ),
                            ..fresh
                        },
                    ) && post == create_state(pre, sid),
                    Err(e) => r == Err::<EntryView, RefStoreError>(RefStoreError::Ref(e))
                        && released(create_state(pre, sid), reliable, fresh, post),
                },
            }
        },
    }
}

/// What `retrieve_ref` may leave behind: where the store has the reference, what `get`
/// leaves behind; where it has none, what `create_ref` leaves behind.
pub open spec fn retrieve_ref_outcome<RPG: UniqueRefPathGenerator, H: Hasher>(
    pre: StoreView,
    reliable: bool,
    path: Seq<char>,
    collection: Seq<char>,
    config: Map<Seq<char>, Seq<char>>,
    content: Seq<char>,
    r: Result<EntryView, RefStoreError>,
    post: StoreView,
) -> bool {
    match RPG::unique_hash_text(content) {
        None => r == Err::<EntryView, RefStoreError>(RefStoreError::HashFailed) && post == pre,
        Some(hash) => if is_absolute(ref_path(RPG::collection_text(), hash)) {
            r == Err::<EntryView, RefStoreError>(RefStoreError::Store(StoreError::InvalidId))
                && post == pre
        } else {
            let sid = normalized(ref_path(RPG::collection_text(), hash));
            ||| !reliable && !crate::store::borrowed(pre, sid) && (r == Err::<
                EntryView,
                RefStoreError,
            >(RefStoreError::Store(StoreError::BackendIo)) || r == Err::<EntryView, RefStoreError>(
                RefStoreError::Store(StoreError::MalformedEntry),
            )) && post == pre
            ||| match get_result(pre, sid) {
                Err(e) => r == Err::<EntryView, RefStoreError>(RefStoreError::Store(e)) && post
                    == get_state(pre, sid),
                Ok(Some(found)) => r == Ok::<EntryView, RefStoreError>(found) && post
                    == get_state(pre, sid),
                Ok(None) => create_ref_outcome::<RPG, H>(
                    pre,
                    reliable,
                    path,
                    collection,
                    config,
                    content,
                    r,
                    post,
                ),
            }
        },
    }
}

/// What `get_ref` may leave behind: where the hash makes no id, that is the error; else what
/// `get` leaves behind.
pub open spec fn get_ref_outcome<RPG: UniqueRefPathGenerator>(
    pre: StoreView,
    reliable: bool,
    hash: Seq<char>,
    r: Result<Option<EntryView>, StoreError>,
    post: StoreView,
) -> bool {
    if is_absolute(ref_path(RPG::collection_text(), hash)) {
        r == Err::<Option<EntryView>, StoreError>(StoreError::InvalidId) && post == pre
    } else {
        get_outcome(pre, reliable, normalized(ref_path(RPG::collection_text(), hash)), r, post)
    }
}

/// What a store offers for references.
pub trait RefStore {
    /// Whether the store is in order. It is for the store to say when it is.
    open spec fn in_order(&self) -> bool {
        arbitrary()
    }

    /// Lends out the reference with the hash `hash`, if the store has it.
    fn get_ref<RPG: UniqueRefPathGenerator>(&mut self, hash: &str) -> Result<
        Option<FileLockEntry>,
        StoreError,
    >
        requires
            old(self).in_order(),
    ;

    /// Makes the reference to the file at `path` in the collection `collection_name`, whose
    /// content is `content`, and lends it out.
    fn create_ref<RPG: UniqueRefPathGenerator, H: Hasher>(
        &mut self,
        path: &str,
        collection_name: &str,
        config: &Config,
        content: &str,
    ) -> Result<FileLockEntry, RefStoreError>
        requires
            old(self).in_order(),
            config.wf(),
    ;

    /// Lends out the reference to the file with the content `content`: the one that the
    /// store has, or else a new one.
    fn retrieve_ref<RPG: UniqueRefPathGenerator, H: Hasher>(
        &mut self,
        path: &str,
        collection_name: &str,
        config: &Config,
        content: &str,
    ) -> Result<FileLockEntry, RefStoreError>
        requires
            old(self).in_order(),
            config.wf(),
    ;
}

impl<B: FileAbstraction> RefStore for Store<B> {
    open spec fn in_order(&self) -> bool {
        self.wf()
    }

    /// Lends out the reference with the hash `hash`, if the store has it.
    fn get_ref<RPG: UniqueRefPathGenerator>(&mut self, hash: &str) -> (r: Result<
        Option<FileLockEntry>,
        StoreError,
    >)
        ensures
            final(self).wf(),
            final(self).backend_reliable() == old(self).backend_reliable(),
            get_ref_outcome::<RPG>(
                old(self)@,
                old(self).backend_reliable(),
                hash@,
                maybe_lent(r),
                final(self)@,
            ),
    {
        match ref_id::<RPG>(hash) {
            Err(e) => Err(e),
            Ok(sid) => self.get(sid),
        }
    }

    /// Makes the reference to the file at `path` in the collection `collection_name`, whose
    /// content is `content`, and lends it out. The reference is kept under the hash that the
    /// generator gives for the content. Where the entry cannot be made a reference, it is
    /// taken back by the store as a new entry.
    fn create_ref<RPG: UniqueRefPathGenerator, H: Hasher>(
        &mut self,
        path: &str,
        collection_name: &str,
        config: &Config,
        content: &str,
    ) -> (r: Result<FileLockEntry, RefStoreError>)
        ensures
            final(self).wf(),
            final(self).backend_reliable() == old(self).backend_reliable(),
            create_ref_outcome::<RPG, H>(
                old(self)@,
                old(self).backend_reliable(),
                path@,
                collection_name@,
                config@,
                content@,
                created_ref(r),
                final(self)@,
            ),
    {
        let hash = match RPG::unique_hash(content) {
            None => {
                return Err(RefStoreError::HashFailed);
            },
            Some(h) => h,
        };
        let sid = match ref_id::<RPG>(hash.as_str()) {
            Err(e) => {
                return Err(RefStoreError::Store(e));
            },
            Ok(sid) => sid,
        };
        let mut handle = match self.create(sid) {
            Err(e) => {
                return Err(RefStoreError::Store(e));
            },
            Ok(h) => h,
        };
        match handle.entry_mut().make_ref::<H>(path, collection_name, config, Some(content), false) {
            Err(e) => {
                self.release(handle);
                Err(RefStoreError::Ref(e))
            },
            Ok(()) => Ok(handle),
        }
    }

    /// Lends out the reference to the file with the content `content`: the one that the
    /// store has, or else a new one.
    fn retrieve_ref<RPG: UniqueRefPathGenerator, H: Hasher>(
        &mut self,
        path: &str,
        collection_name: &str,
        config: &Config,
        content: &str,
    ) -> (r: Result<FileLockEntry, RefStoreError>)
        ensures
            final(self).wf(),
            final(self).backend_reliable() == old(self).backend_reliable(),
            retrieve_ref_outcome::<RPG, H>(
                old(self)@,
                old(self).backend_reliable(),
                path@,
                collection_name@,
                config@,
                content@,
                created_ref(r),
                final(self)@,
            ),
    {
        let hash = match RPG::unique_hash(content) {
            None => {
                return Err(RefStoreError::HashFailed);
            },
            Some(h) => h,
        };
        match self.get_ref::<RPG>(hash.as_str()) {
            Err(e) => Err(RefStoreError::Store(e)),
            Ok(Some(handle)) => Ok(handle),
            Ok(None) => self.create_ref::<RPG, H>(path, collection_name, config, content),
        }
    }
}

} // verus!

//! What a store asks of the place that keeps its entries, and a keeper in memory.
use vstd::prelude::*;
use crate::error::StoreError;
use crate::storeid::{is_under, strip_prefix};
use crate::strmap::StringMap;
use crate::value::{HeaderValue, Tree};

verus! {

/// What a backend keeps: under each path the header and the content of one entry.
pub type Files = Map<Seq<char>, (Tree, Seq<char>)>;

/// The operations on stored entries that a store is built on. An operation either does what
/// the files call for, or fails with `BackendIo` and leaves the files as they were; a
/// backend that is `reliable` fails only where the files call for it.
pub trait FileAbstraction {
    /// What the backend keeps. It is for the backend to say what that is.
    open spec fn files(&self) -> Files {
        arbitrary()
    }

    /// Whether the backend fails only where its files call for it. Unless a backend says
    /// otherwise, it does not.
    open spec fn reliable(&self) -> bool {
        false
    }

    /// Whether the backend is in order. It is for the backend to say when it is.
    open spec fn wf(&self) -> bool {
        arbitrary()
    }

    /// Removes the entry at `path`. Fails where there is none.
    fn remove_file(&mut self, path: &str) -> (r: Result<(), StoreError>)
        requires
            old(self).wf(),
        ensures
            final(self).wf(),
            final(self).reliable() == old(self).reliable(),
            match r {
                Ok(()) => old(self).files().contains_key(path@) && final(self).files() == old(self).files().remove(path@),
                Err(e) => e == StoreError::BackendIo && final(self).files() == old(self).files()
                    && (old(self).reliable() ==> !old(self).files().contains_key(path@)),
            },
    ;

    /// Copies the entry at `from` to `to`. Fails where there is none at `from`.
    fn copy(&mut self, from: &str, to: &str) -> (r: Result<(), StoreError>)
        requires
            old(self).wf(),
        ensures
            final(self).wf(),
            final(self).reliable() == old(self).reliable(),
            match r {
                Ok(()) => old(self).files().contains_key(from@) && final(self).files() == old(self).files().insert(to@, old(self).files()[from@]),
                Err(e) => e == StoreError::BackendIo && final(self).files() == old(self).files()
                    && (old(self).reliable() ==> !old(self).files().contains_key(from@)),
            },
    ;

    /// Moves the entry at `from` to `to`. Fails where there is none at `from`.
    fn rename(&mut self, from: &str, to: &str) -> (r: Result<(), StoreError>)
        requires
            old(self).wf(),
        ensures
            final(self).wf(),
            final(self).reliable() == old(self).reliable(),
            match r {
                Ok(()) => old(self).files().contains_key(from@) && final(self).files() == old(self).files().remove(from@).insert(to@, old(self).files()[from@]),
                Err(e) => e == StoreError::BackendIo && final(self).files() == old(self).files()
                    && (old(self).reliable() ==> !old(self).files().contains_key(from@)),
            },
    ;

    /// Makes the directory `path` and those above it. The entries stay as they are.
    fn create_dir_all(&mut self, path: &str) -> (r: Result<(), StoreError>)
        requires
            old(self).wf(),
        ensures
            final(self).wf(),
            final(self).reliable() == old(self).reliable(),
            final(self).files() == old(self).files(),
            match r {
                Ok(()) => true,
                Err(e) => e == StoreError::BackendIo && !old(self).reliable(),
            },
    ;

    /// Whether there is an entry at `path`.
    fn path_exists(&self, path: &str) -> (r: Result<bool, StoreError>)
        requires
            self.wf(),
        ensures
            match r {
                Ok(b) => b == self.files().contains_key(path@),
                Err(e) => e == StoreError::BackendIo && !self.reliable(),
            },
    ;

    /// The header and the content of the entry at `path`, or nothing where there is none.
    fn get_file_content(&self, path: &str) -> (r: Result<Option<(HeaderValue, String)>, StoreError>)
        requires
            self.wf(),
        ensures
            match r {
                Ok(Some((h, c))) => self.files().contains_key(path@) && self.files()[path@] == (
                    h@,
                    c@,
                ),
                Ok(None) => !self.files().contains_key(path@),
                Err(e) => (e == StoreError::BackendIo || e == StoreError::MalformedEntry)
                    && !self.reliable(),
            },
    ;

    /// Puts the entry with `header` and `content` at `path`.
    fn write_file_content(&mut self, path: &str, header: &HeaderValue, content: &str) -> (r:
        Result<(), StoreError>)
        requires
            old(self).wf(),
        ensures
            final(self).wf(),
            final(self).reliable() == old(self).reliable(),
            match r {
                Ok(()) => final(self).files() == old(self).files().insert(
                    path@,
                    (header@, content@),
                ),
                Err(e) => e == StoreError::BackendIo && final(self).files() == old(self).files()
                    && !old(self).reliable(),
            },
    ;

    /// The paths of the entries at or below `basepath`, each once, in no promised order.
    fn pathes_recursively(&self, basepath: &str) -> (r: Result<Vec<String>, StoreError>)
        requires
            self.wf(),
        ensures
            match r {
                Ok(paths) => lists_files(paths@, self.files(), basepath@),
                Err(e) => e == StoreError::BackendIo && !self.reliable(),
            },
    ;
}

/// `paths` holds each path of `files` at or below `base` once, and nothing else.
pub open spec fn lists_files(paths: Seq<String>, files: Files, base: Seq<char>) -> bool {
    &&& forall|i: int|
        0 <= i < paths.len() ==> files.contains_key(#[trigger] paths[i]@) && is_under(
            base,
            paths[i]@,
        )
    &&& forall|i: int, j: int|
        0 <= i < j < paths.len() ==> #[trigger] paths[i]@ != #[trigger] paths[j]@
    &&& forall|p: Seq<char>|
        files.contains_key(p) && is_under(base, p) ==> exists|i: int|
            0 <= i < paths.len() && #[trigger] paths[i]@ == p
}

/// A backend that keeps its entries in memory.
pub struct InMemoryFileAbstraction {
    map: StringMap<(HeaderValue, String)>,
}

impl InMemoryFileAbstraction {
    /// A backend without entries.
    pub fn new() -> (r: Self)
        ensures
            r.wf(),
            r.reliable(),
            r.files() == Map::<Seq<char>, (Tree, Seq<char>)>::empty(),
    {
        InMemoryFileAbstraction { map: StringMap::new() }
    }
}

impl FileAbstraction for InMemoryFileAbstraction {
    closed spec fn files(&self) -> Files {
        self.map@
    }

    open spec fn reliable(&self) -> bool {
        true
    }

    closed spec fn wf(&self) -> bool {
        self.map.wf()
    }

    fn remove_file(&mut self, path: &str) -> (r: Result<(), StoreError>) {
        match self.map.remove(path) {
            Some(_) => Ok(()),
            None => {
                assert(self.map@ =~= old(self).map@);
                Err(StoreError::BackendIo)
            },
        }
    }

    fn copy(&mut self, from: &str, to: &str) -> (r: Result<(), StoreError>) {
        match self.map.get(from) {
            Some(found) => {
                let header = found.0.clone();
                let content = found.1.clone();
                self.map.insert(to.to_owned(), (header, content));
                Ok(())
            },
            None => Err(StoreError::BackendIo),
        }
    }

    fn rename(&mut self, from: &str, to: &str) -> (r: Result<(), StoreError>) {
        match self.map.remove(from) {
            Some(found) => {
                self.map.insert(to.to_owned(), found);
                Ok(())
            },
            None => {
                assert(self.map@ =~= old(self).map@);
                Err(StoreError::BackendIo)
            },
        }
    }

    fn create_dir_all(&mut self, path: &str) -> (r: Result<(), StoreError>) {
        Ok(())
    }

    fn path_exists(&self, path: &str) -> (r: Result<bool, StoreError>) {
        Ok(self.map.contains_key(path))
    }

    fn get_file_content(&self, path: &str) -> (r: Result<Option<(HeaderValue, String)>, StoreError>) {
        match self.map.get(path) {
            Some(found) => Ok(Some((found.0.clone(), found.1.clone()))),
            None => Ok(None),
        }
    }

    fn write_file_content(&mut self, path: &str, header: &HeaderValue, content: &str) -> (r:
        Result<(), StoreError>) {
        self.map.insert(path.to_owned(), (header.clone(), content.to_owned()));
        Ok(())
    }

    fn pathes_recursively(&self, basepath: &str) -> (r: Result<Vec<String>, StoreError>) {
        let mut out: Vec<String> = Vec::new();
        let ghost mut picked: Seq<int> = Seq::empty();
        let n = self.map.len();
        let mut i: usize = 0;
        proof {
            self.map.lemma_keys();
        }
        while i < n
            invariant
                self.map.wf(),
                n == self.map.keys().len(),
                i <= n,
                self.map.keys().no_duplicates(),
                self.map.keys().to_set() == self.map@.dom(),
                picked.len() == out@.len(),
                forall|k: int|
                    0 <= k < picked.len() ==> 0 <= #[trigger] picked[k] < i && out@[k]@
                        == self.map.keys()[picked[k]] && is_under(basepath@, out@[k]@),
                forall|a: int, b: int|
                    0 <= a < b < picked.len() ==> #[trigger] picked[a] < #[trigger] picked[b],
                forall|j: int|
                    0 <= j < i && is_under(basepath@, #[trigger] self.map.keys()[j])
                        ==> exists|k: int| 0 <= k < picked.len() && #[trigger] picked[k] == j,
            decreases n - i,
        {
            let key = self.map.key_at(i);
            if strip_prefix(basepath, key.as_str()).is_some() {
                out.push(key.clone());
                proof {
                    let before = picked;
                    picked = picked.push(i as int);
                    assert forall|j: int|
                        0 <= j < i + 1 && is_under(
                            basepath@,
                            #[trigger] self.map.keys()[j],
                        ) implies exists|k: int|
                        0 <= k < picked.len() && #[trigger] picked[k] == j by {
                        if j < i {
                            let k = choose|k: int| 0 <= k < before.len() && #[trigger] before[k] == j;
                            assert(picked[k] == j);
                        } else {
                            assert(picked[picked.len() - 1] == j);
                        }
                    }
                }
            }
            i = i + 1;
        }
        proof {
            let keys = self.map.keys();
            assert forall|k: int| 0 <= k < out@.len() implies self.files().contains_key(
                #[trigger] out@[k]@,
            ) && is_under(basepath@, out@[k]@) by {
                assert(keys[picked[k]] == out@[k]@);
                assert(keys.to_set().contains(keys[picked[k]]));
            }
            assert forall|a: int, b: int| 0 <= a < b < out@.len() implies #[trigger] out@[a]@
                != #[trigger] out@[b]@ by {
                assert(picked[a] < picked[b]);
            }
            assert forall|p: Seq<char>|
                self.files().contains_key(p) && is_under(basepath@, p) implies exists|k: int|
                0 <= k < out@.len() && #[trigger] out@[k]@ == p by {
                assert(keys.to_set().contains(p));
                let j = choose|j: int| 0 <= j < keys.len() && keys[j] == p;
                let k = choose|k: int| 0 <= k < picked.len() && #[trigger] picked[k] == j;
                assert(out@[k]@ == p);
            }
        }
        Ok(out)
    }
}

} // verus!

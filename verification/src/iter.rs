//! Walking through ids with a store at hand: creating, getting, retrieving or deleting the
//! entry of each id in turn.
use vstd::prelude::*;
use crate::entry::EntryView;
use crate::error::StoreError;
use crate::file_abstraction::FileAbstraction;
use crate::store::{
    create_outcome, delete_outcome, get_outcome, known, lent, maybe_lent, retrieve_outcome,
    FileLockEntry, Store,
};
use crate::storeid::StoreIdIterator;

verus! {

/// Creates the entry of each id in turn.
#[derive(Debug)]
pub struct StoreCreateIterator {
    ids: StoreIdIterator,
}

impl StoreCreateIterator {
    /// The ids that are still to come.
    pub closed spec fn remaining(&self) -> Seq<Result<Seq<char>, StoreError>> {
        self.ids.remaining()
    }

    /// An iterator that creates the entries of `ids`.
    pub fn new(ids: StoreIdIterator) -> (r: StoreCreateIterator)
        ensures
            r.remaining() == ids.remaining(),
    {
        StoreCreateIterator { ids }
    }

    /// Creates the entry of the next id in `store`. An error that stands in the place of an
    /// id is handed on, and an error of the store does not end the walk.
    pub fn next<B: FileAbstraction>(&mut self, store: &mut Store<B>) -> (r: Option<
        Result<FileLockEntry, StoreError>,
    >)
        requires
            old(store).wf(),
        ensures
            final(store).wf(),
            final(store).backend_reliable() == old(store).backend_reliable(),
            match r {
                None => old(self).remaining().len() == 0 && final(self).remaining() == old(self).remaining() && final(store)@ == old(store)@,
                Some(res) => old(self).remaining().len() > 0 && final(self).remaining() == old(self).remaining().drop_first() && match old(self).remaining()[0] {
                    Err(e) => lent(res) == Err::<EntryView, StoreError>(e) && final(store)@
                        == old(store)@,
                    Ok(id) => create_outcome(
                        old(store)@,
                        old(store).backend_reliable(),
                        id,
                        lent(res),
                        final(store)@,
                    ),
                },
            },
    {
        match self.ids.next() {
            None => None,
            Some(Err(e)) => Some(Err(e)),
            Some(Ok(id)) => Some(store.create(id)),
        }
    }
}

/// Retrieves the entry of each id in turn.
#[derive(Debug)]
pub struct StoreRetrieveIterator {
    ids: StoreIdIterator,
}

impl StoreRetrieveIterator {
    /// The ids that are still to come.
    pub closed spec fn remaining(&self) -> Seq<Result<Seq<char>, StoreError>> {
        self.ids.remaining()
    }

    /// An iterator that retrieves the entries of `ids`.
    pub fn new(ids: StoreIdIterator) -> (r: StoreRetrieveIterator)
        ensures
            r.remaining() == ids.remaining(),
    {
        StoreRetrieveIterator { ids }
    }

    /// Retrieves the entry of the next id from `store`. An error that stands in the place of
    /// an id is handed on, and an error of the store does not end the walk.
    pub fn next<B: FileAbstraction>(&mut self, store: &mut Store<B>) -> (r: Option<
        Result<FileLockEntry, StoreError>,
    >)
        requires
            old(store).wf(),
        ensures
            final(store).wf(),
            final(store).backend_reliable() == old(store).backend_reliable(),
            match r {
                None => old(self).remaining().len() == 0 && final(self).remaining() == old(self).remaining() && final(store)@ == old(store)@,
                Some(res) => old(self).remaining().len() > 0 && final(self).remaining() == old(self).remaining().drop_first() && match old(self).remaining()[0] {
                    Err(e) => lent(res) == Err::<EntryView, StoreError>(e) && final(store)@
                        == old(store)@,
                    Ok(id) => retrieve_outcome(
                        old(store)@,
                        old(store).backend_reliable(),
                        id,
                        lent(res),
                        final(store)@,
                    ),
                },
            },
    {
        match self.ids.next() {
            None => None,
            Some(Err(e)) => Some(Err(e)),
            Some(Ok(id)) => Some(store.retrieve(id)),
        }
    }
}

/// Deletes the entry of each id in turn.
#[derive(Debug)]
pub struct StoreDeleteIterator {
    ids: StoreIdIterator,
}

impl StoreDeleteIterator {
    /// The ids that are still to come.
    pub closed spec fn remaining(&self) -> Seq<Result<Seq<char>, StoreError>> {
        self.ids.remaining()
    }

    /// An iterator that deletes the entries of `ids`.
    pub fn new(ids: StoreIdIterator) -> (r: StoreDeleteIterator)
        ensures
            r.remaining() == ids.remaining(),
    {
        StoreDeleteIterator { ids }
    }

    /// Deletes the entry of the next id from `store`. An error that stands in the place of
    /// an id is handed on, and an error of the store does not end the walk.
    pub fn next<B: FileAbstraction>(&mut self, store: &mut Store<B>) -> (r: Option<
        Result<(), StoreError>,
    >)
        requires
            old(store).wf(),
        ensures
            final(store).wf(),
            final(store).backend_reliable() == old(store).backend_reliable(),
            match r {
                None => old(self).remaining().len() == 0 && final(self).remaining() == old(self).remaining() && final(store)@ == old(store)@,
                Some(res) => old(self).remaining().len() > 0 && final(self).remaining() == old(self).remaining().drop_first() && match old(self).remaining()[0] {
                    Err(e) => res == Err::<(), StoreError>(e) && final(store)@ == old(store)@,
                    Ok(id) => delete_outcome(
                        old(store)@,
                        old(store).backend_reliable(),
                        id,
                        res,
                        final(store)@,
                    ),
                },
            },
    {
        match self.ids.next() {
            None => None,
            Some(Err(e)) => Some(Err(e)),
            Some(Ok(id)) => Some(store.delete(id)),
        }
    }
}

/// Gets the entry of each id in turn, and passes over the ids that the store does not have.
#[derive(Debug)]
pub struct StoreGetIterator {
    ids: StoreIdIterator,
}

/// Whether the first `n` of `ids` are ids that the store `s` does not have.
pub open spec fn all_unknown(s: crate::store::StoreView, ids: Seq<Result<Seq<char>, StoreError>>, n: int)
    -> bool {
    forall|i: int| 0 <= i < n ==> (#[trigger] ids[i]) is Ok && !known(s, ids[i]->Ok_0)
}

impl StoreGetIterator {
    /// The ids that are still to come.
    pub closed spec fn remaining(&self) -> Seq<Result<Seq<char>, StoreError>> {
        self.ids.remaining()
    }

    /// An iterator that gets the entries of `ids`.
    pub fn new(ids: StoreIdIterator) -> (r: StoreGetIterator)
        ensures
            r.remaining() == ids.remaining(),
    {
        StoreGetIterator { ids }
    }

    /// Gets from `store` the entry of the next id that the store has. The ids before it,
    /// which the store does not have, are passed over and leave the store as it is. An error
    /// that stands in the place of an id is handed on, and an error of the store does not
    /// end the walk.
    pub fn next<B: FileAbstraction>(&mut self, store: &mut Store<B>) -> (r: Option<
        Result<FileLockEntry, StoreError>,
    >)
        requires
            old(store).wf(),
        ensures
            final(store).wf(),
            final(store).backend_reliable() == old(store).backend_reliable(),
            match r {
                None => all_unknown(
                    old(store)@,
                    old(self).remaining(),
                    old(self).remaining().len() as int,
                ) && final(self).remaining().len() == 0 && final(store)@ == old(store)@,
                Some(res) => exists|j: int|
                    #![trigger old(self).remaining()[j]]
                    0 <= j < old(self).remaining().len() && all_unknown(
                        old(store)@,
                        old(self).remaining(),
                        j,
                    ) && final(self).remaining() == old(self).remaining().skip(j + 1)
                        && match old(self).remaining()[j] {
                        Err(e) => lent(res) == Err::<EntryView, StoreError>(e) && final(store)@
                            == old(store)@,
                        Ok(id) => get_outcome(
                            old(store)@,
                            old(store).backend_reliable(),
                            id,
                            match lent(res) {
                                Ok(e) => Ok(Some(e)),
                                Err(e) => Err(e),
                            },
                            final(store)@,
                        ),
                    },
            },
    {
        let ghost all = self.ids.remaining();
        let ghost mut passed: int = 0;
        loop
            invariant
                store.wf(),
                store@ == old(store)@,
                store.backend_reliable() == old(store).backend_reliable(),
                all == old(self).remaining(),
                0 <= passed <= all.len(),
                self.ids.remaining() == all.skip(passed),
                all_unknown(store@, all, passed),
            decreases all.len() - passed,
        {
            match self.ids.next() {
                None => {
                    return None;
                },
                Some(Err(e)) => {
                    proof {
                        assert(all.skip(passed)[0] == all[passed]);
                        assert(all.skip(passed).drop_first() =~= all.skip(passed + 1));
                    }
                    return Some(Err(e));
                },
                Some(Ok(id)) => {
                    proof {
                        assert(all.skip(passed)[0] == all[passed]);
                        assert(all.skip(passed).drop_first() =~= all.skip(passed + 1));
                    }
                    match store.get(id) {
                        Ok(None) => {
                            proof {
                                passed = passed + 1;
                            }
                        },
                        Ok(Some(handle)) => {
                            return Some(Ok(handle));
                        },
                        Err(e) => {
                            return Some(Err(e));
                        },
                    }
                },
            }
        }
    }
}

impl StoreIdIterator {
    /// An iterator that creates the entry of each id.
    pub fn into_create_iter(self) -> (r: StoreCreateIterator)
        ensures
            r.remaining() == self.remaining(),
    {
        StoreCreateIterator::new(self)
    }

    /// An iterator that deletes the entry of each id.
    pub fn into_delete_iter(self) -> (r: StoreDeleteIterator)
        ensures
            r.remaining() == self.remaining(),
    {
        StoreDeleteIterator::new(self)
    }

    /// An iterator that gets the entry of each id that a store has.
    pub fn into_get_iter(self) -> (r: StoreGetIterator)
        ensures
            r.remaining() == self.remaining(),
    {
        StoreGetIterator::new(self)
    }

    /// An iterator that retrieves the entry of each id.
    pub fn into_retrieve_iter(self) -> (r: StoreRetrieveIterator)
        ensures
            r.remaining() == self.remaining(),
    {
        StoreRetrieveIterator::new(self)
    }
}

} // verus!

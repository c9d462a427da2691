//! Mail in a store: for each message an entry, kept under the id of the message, that
//! refers to the file of the message.
use vstd::prelude::*;
use crate::codec::{header_insert, header_read, header_read_result, insert_supported, query_insert, query_outcome};
use crate::entry::{Entry, EntryView};
use crate::error::StoreError;
use crate::file_abstraction::FileAbstraction;
use crate::hasher::Hasher;
use crate::reference::{is_ref_result, Config, Ref, RefError};
use crate::store::{
    get_result, get_state, released, retrieve_result, retrieve_state, FileLockEntry, Store,
    StoreView,
};
use crate::store::enumerates;
use crate::storeid::{
    in_collection, is_absolute, join, names_view, normalized, path_parts, IntoStoreId,
    ModuleEntryPath, StoreId, StoreIdIterator,
};
use crate::value::{HeaderValue, Tree};

verus! {

/// What can go wrong with mail in a store.
#[derive(Debug, Clone, Copy, PartialEq, Eq, Structural)]
pub enum MailError {
    /// The store failed.
    Store(StoreError),
    /// The entry of the message could not be made a reference, or cannot be told to be one.
    Ref(RefError),
    /// The entry of the message does not refer to a file.
    NotAReference,
    /// The header could not be read or changed at the path of a field.
    HeaderAccessFailed,
    /// The header lacks a field of the message.
    HeaderFieldMissing,
    /// A field of the message holds a value of the wrong type.
    HeaderTypeError,
}

/// The path of the entry of the message `message_id`: the module of mail, then the id.
pub open spec fn mail_path(message_id: Seq<char>) -> Seq<char> {
    join("mail"@, message_id)
}

/// The id of the entry of the message `message_id`.
pub fn mail_id(message_id: &str) -> (r: Result<StoreId, StoreError>)
    ensures
        is_absolute(mail_path(message_id@)) ==> r == Err::<StoreId, StoreError>(
            StoreError::InvalidId,
        ),
        !is_absolute(mail_path(message_id@)) ==> r is Ok && r->Ok_0@ == normalized(
            mail_path(message_id@),
        ),
{
    ModuleEntryPath::new("mail", message_id).into_storeid()
}

/// The header `h` with the id of the message noted in it.
pub open spec fn with_message_id(h: Tree, message_id: Seq<char>) -> Tree {
    query_insert(h, "mail.message-id"@, Tree::Text(message_id)).0
}

/// Whether the id of a message can be noted in the header `h`.
pub open spec fn can_note_message_id(h: Tree, message_id: Seq<char>) -> bool {
    h is Table && query_insert(h, "mail.message-id"@, Tree::Text(message_id)).1 is Some
}

/// Notes the id of the message in the header of `entry`. Where that fails, the entry stays
/// as it is.
fn note_message_id(entry: &mut Entry, message_id: &str) -> (r: Result<(), MailError>)
    ensures
        final(entry)@.location == old(entry)@.location,
        final(entry)@.content == old(entry)@.content,
        match r {
            Ok(()) => can_note_message_id(old(entry)@.header, message_id@) && final(entry)@.header == with_message_id(old(entry)@.header, message_id@),
            Err(e) => e == MailError::HeaderAccessFailed && !can_note_message_id(
                old(entry)@.header,
                message_id@,
            ) && final(entry)@ == old(entry)@,
        },
{
    proof {
        lemma_message_id_path();
    }
    let mut header = entry.get_header().clone();
    match header_insert(&mut header, "mail.message-id", &HeaderValue::String(message_id.to_owned())) {
        Err(_) => Err(MailError::HeaderAccessFailed),
        Ok(_) => {
            entry.set_header(header);
            Ok(())
        },
    }
}

/// The path at which the id of a message is noted has two names and addresses no item of an
/// array.
proof fn lemma_message_id_path()
    ensures
        !crate::codec::has_index("mail.message-id"@),
        crate::codec::dots("mail.message-id"@) <= 1,
{
    reveal_strlit("mail.message-id");
    crate::codec::lemma_no_bracket_no_index("mail.message-id"@, 0, 0);
    crate::codec::lemma_dots_at_most_one("mail.message-id"@, 4);
}

/// The file of the message that `entry` stands for, as its header names it.
pub fn mail_file(entry: &Entry) -> (r: Result<String, MailError>)
    ensures
        match header_read_result(entry@.header, "mail.file"@) {
            Ok(Some(Tree::Text(s))) => r is Ok && r->Ok_0@ == s,
            Ok(Some(_)) => r == Err::<String, MailError>(MailError::HeaderTypeError),
            Ok(None) => r == Err::<String, MailError>(MailError::HeaderFieldMissing),
            Err(_) => r == Err::<String, MailError>(MailError::HeaderAccessFailed),
        },
{
    match header_read(entry.get_header(), "mail.file") {
        Ok(Some(v)) => match v.as_str() {
            Some(s) => Ok(s.to_owned()),
            None => Err(MailError::HeaderTypeError),
        },
        Ok(None) => Err(MailError::HeaderFieldMissing),
        Err(_) => Err(MailError::HeaderAccessFailed),
    }
}

/// The result of an operation that may lend out the entry of a message, without the handle.
pub open spec fn maybe_lent_mail(r: Result<Option<FileLockEntry>, MailError>) -> Result<
    Option<EntryView>,
    MailError,
> {
    match r {
        Ok(Some(h)) => Ok(Some(h@)),
        Ok(None) => Ok(None),
        Err(e) => Err(e),
    }
}

/// The result of an operation that lends out the entry of a message, without the handle.
pub open spec fn lent_mail(r: Result<FileLockEntry, MailError>) -> Result<EntryView, MailError> {
    match r {
        Ok(h) => Ok(h@),
        Err(e) => Err(e),
    }
}

/// What `get_mail_from_path` may leave behind. In turn: the id of the message makes an id;
/// the store has the entry and lends it out; the entry is a reference; the id of the message
/// can be noted in its header. Where one of the last two fails, the store takes the entry
/// back. Where the entry is not lent out and the backend, which is then asked, is not
/// reliable, the store may also fail and stay as it is.
pub open spec fn get_mail_outcome(
    pre: StoreView,
    reliable: bool,
    message_id: Seq<char>,
    r: Result<Option<EntryView>, MailError>,
    post: StoreView,
) -> bool {
    if is_absolute(mail_path(message_id)) {
        r == Err::<Option<EntryView>, MailError>(MailError::Store(StoreError::InvalidId)) && post
            == pre
    } else {
        let sid = normalized(mail_path(message_id));
        ||| !reliable && !crate::store::borrowed(pre, sid) && (r == Err::<
            Option<EntryView>,
            MailError,
        >(MailError::Store(StoreError::BackendIo)) || r == Err::<Option<EntryView>, MailError>(
            MailError::Store(StoreError::MalformedEntry),
        )) && post == pre
        ||| match get_result(pre, sid) {
            Err(e) => r == Err::<Option<EntryView>, MailError>(MailError::Store(e)) && post
                == get_state(pre, sid),
            Ok(None) => r == Ok::<Option<EntryView>, MailError>(None) && post == pre,
            Ok(Some(found)) => match is_ref_result(found.header) {
                Err(e) => r == Err::<Option<EntryView>, MailError>(MailError::Ref(e)) && released(
                    get_state(pre, sid),
                    reliable,
                    found,
                    post,
                ),
                Ok(false) => r == Err::<Option<EntryView>, MailError>(MailError::NotAReference)
                    && released(get_state(pre, sid), reliable, found, post),
                Ok(true) => if can_note_message_id(found.header, message_id) {
                    r == Ok::<Option<EntryView>, MailError>(
                        Some(
                            EntryView {
                                header: with_message_id(found.header, message_id),
                                ..found
                            },
                        ),
                    ) && post == get_state(pre, sid)
                } else {
                    r == Err::<Option<EntryView>, MailError>(MailError::HeaderAccessFailed)
                        && released(get_state(pre, sid), reliable, found, post)
                },
            },
        }
    }
}

/// What `retrieve_mail_from_path` may leave behind. In turn: the id of the message makes an
/// id; the store lends out the entry, which it makes if it does not have it; the id of the
/// message can be noted in its header; the entry can be made a reference to the file of the
/// message. Where one of the last two fails, the store takes the entry back. Where the
/// entry is not lent out and the backend, which is then asked, is not reliable, the store
/// may also fail and stay as it is.
pub open spec fn retrieve_mail_outcome<H: Hasher>(
    pre: StoreView,
    reliable: bool,
    message_id: Seq<char>,
    path: Seq<char>,
    collection: Seq<char>,
    config: Map<Seq<char>, Seq<char>>,
    content: Option<Seq<char>>,
    r: Result<EntryView, MailError>,
    post: StoreView,
) -> bool {
    if is_absolute(mail_path(message_id)) {
        r == Err::<EntryView, MailError>(MailError::Store(StoreError::InvalidId)) && post == pre
    } else {
        let sid = normalized(mail_path(message_id));
        ||| !reliable && !crate::store::borrowed(pre, sid) && (r == Err::<EntryView, MailError>(
            MailError::Store(StoreError::BackendIo),
        ) || r == Err::<EntryView, MailError>(MailError::Store(StoreError::MalformedEntry)))
            && post == pre
        ||| match retrieve_result(pre, sid) {
            Err(e) => r == Err::<EntryView, MailError>(MailError::Store(e)) && post
                == retrieve_state(pre, sid),
            Ok(found) => if !can_note_message_id(found.header, message_id) {
                r == Err::<EntryView, MailError>(MailError::HeaderAccessFailed) && released(
                    retrieve_state(pre, sid),
                    reliable,
                    found,
                    post,
                )
            } else {
                let noted = EntryView {
                    header: with_message_id(found.header, message_id),
                    ..found
                };
                match crate::reference::make_ref_result::<H>(
                    noted.header,
                    path,
                    collection,
                    config,
                    content,
                    false,
                ) {
                    Err(e) => r == Err::<EntryView, MailError>(MailError::Ref(e)) && released(
                        retrieve_state(pre, sid),
                        reliable,
                        noted,
                        post,
                    ),
                    Ok(()) => r == Ok::<EntryView, MailError>(
                        EntryView {
                            header: crate::reference::with_ref_section(
                                noted.header,
                                crate::reference::header_section(
                                    H::hash_text(content->Some_0)->Some_0,
                                    H::name_text(),
                                    path,
                                    collection,
                                ),
                            ),
                            ..noted
                        },
                    ) && post == retrieve_state(pre, sid),
                }
            },
        }
    }
}

/// Whether the entry `id` is mail.
pub open spec fn is_mail(id: Result<Seq<char>, StoreError>) -> bool {
    id is Ok && in_collection(path_parts(id->Ok_0), seq!["mail"@])
}

/// What `all_mails` hands out: of the ids of all entries, in some order, those of mail, in
/// that order.
pub open spec fn lists_mails(
    ids: Seq<Result<Seq<char>, StoreError>>,
    files: crate::file_abstraction::Files,
    location: Seq<char>,
) -> bool {
    exists|all: Seq<Result<Seq<char>, StoreError>>|
        #![trigger enumerates(all, files, location)]
        enumerates(all, files, location) && ids == all.filter(
            |id: Result<Seq<char>, StoreError>| is_mail(id),
        )
}

/// What a store offers for mail.
pub trait MailStore {
    /// Whether the store is in order. It is for the store to say when it is.
    open spec fn in_order(&self) -> bool {
        arbitrary()
    }

    /// Lends out the entry of the message `message_id`, if the store has it.
    fn get_mail_from_path(&mut self, message_id: &str) -> Result<Option<FileLockEntry>, MailError>
        requires
            old(self).in_order(),
    ;

    /// Lends out the entry of the message `message_id`, which is made if the store does
    /// not have it.
    fn retrieve_mail_from_path<H: Hasher>(
        &mut self,
        message_id: &str,
        path: &str,
        collection_name: &str,
        config: &Config,
        content: Option<&str>,
    ) -> Result<FileLockEntry, MailError>
        requires
            old(self).in_order(),
            config.wf(),
    ;

    /// Lends out the entry of the message `message_id`, if the store has it.
    fn get_mail(&mut self, message_id: &str) -> Result<Option<FileLockEntry>, MailError>
        requires
            old(self).in_order(),
    ;

    /// The ids of the entries of all messages.
    fn all_mails(&self) -> Result<StoreIdIterator, StoreError>
        requires
            self.in_order(),
    ;
}

impl<B: FileAbstraction> MailStore for Store<B> {
    open spec fn in_order(&self) -> bool {
        self.wf()
    }

    /// Lends out the entry of the message `message_id`, if the store has it, with the id of
    /// the message noted in its header. It is an error if the entry does not refer to a
    /// file; the store then takes the entry back.
    fn get_mail_from_path(&mut self, message_id: &str) -> (r: Result<
        Option<FileLockEntry>,
        MailError,
    >)
        ensures
            final(self).wf(),
            final(self).backend_reliable() == old(self).backend_reliable(),
            get_mail_outcome(
                old(self)@,
                old(self).backend_reliable(),
                message_id@,
                maybe_lent_mail(r),
                final(self)@,
            ),
    {
        let sid = match mail_id(message_id) {
            Err(e) => {
                return Err(MailError::Store(e));
            },
            Ok(sid) => sid,
        };
        let mut handle = match self.get(sid) {
            Err(e) => {
                return Err(MailError::Store(e));
            },
            Ok(None) => {
                return Ok(None);
            },
            Ok(Some(h)) => h,
        };
        match handle.entry().is_ref() {
            Err(e) => {
                self.release(handle);
                return Err(MailError::Ref(e));
            },
            Ok(false) => {
                self.release(handle);
                return Err(MailError::NotAReference);
            },
            Ok(true) => {},
        }
        match note_message_id(handle.entry_mut(), message_id) {
            Err(e) => {
                self.release(handle);
                Err(e)
            },
            Ok(()) => Ok(Some(handle)),
        }
    }

    /// Lends out the entry of the message `message_id`, which is made if the store does
    /// not have it, with the id of the message noted in its header, as a reference to the
    /// file of the message at `path` in the collection `collection_name`, whose content is
    /// `content`. Where the entry cannot be made that, the store takes it back.
    fn retrieve_mail_from_path<H: Hasher>(
        &mut self,
        message_id: &str,
        path: &str,
        collection_name: &str,
        config: &Config,
        content: Option<&str>,
    ) -> (r: Result<FileLockEntry, MailError>)
        ensures
            final(self).wf(),
            final(self).backend_reliable() == old(self).backend_reliable(),
            retrieve_mail_outcome::<H>(
                old(self)@,
                old(self).backend_reliable(),
                message_id@,
                path@,
                collection_name@,
                config@,
                crate::reference::content_view(content),
                lent_mail(r),
                final(self)@,
            ),
    {
        let sid = match mail_id(message_id) {
            Err(e) => {
                return Err(MailError::Store(e));
            },
            Ok(sid) => sid,
        };
        let mut handle = match self.retrieve(sid) {
            Err(e) => {
                return Err(MailError::Store(e));
            },
            Ok(h) => h,
        };
        match note_message_id(handle.entry_mut(), message_id) {
            Err(e) => {
                self.release(handle);
                return Err(e);
            },
            Ok(()) => {},
        }
        match handle.entry_mut().make_ref::<H>(path, collection_name, config, content, false) {
            Err(e) => {
                self.release(handle);
                Err(MailError::Ref(e))
            },
            Ok(()) => Ok(handle),
        }
    }

    /// Lends out the entry of the message `message_id`, if the store has it, as
    /// `get_mail_from_path` does.
    fn get_mail(&mut self, message_id: &str) -> (r: Result<Option<FileLockEntry>, MailError>)
        ensures
            final(self).wf(),
            final(self).backend_reliable() == old(self).backend_reliable(),
            get_mail_outcome(
                old(self)@,
                old(self).backend_reliable(),
                message_id@,
                maybe_lent_mail(r),
                final(self)@,
            ),
    {
        self.get_mail_from_path(message_id)
    }

    /// The ids of the entries of all messages: of the ids of all entries, those in the
    /// collection of mail.
    fn all_mails(&self) -> (r: Result<StoreIdIterator, StoreError>)
        ensures
            match r {
                Ok(ids) => lists_mails(ids.remaining(), self@.files, self@.location),
                Err(e) => e == StoreError::BackendIo && !self.backend_reliable(),
            },
    {
        let mut all = match self.entries() {
            Err(e) => {
                return Err(e);
            },
            Ok(all) => all,
        };
        let ghost listed = all.remaining();
        let ghost pred = |id: Result<Seq<char>, StoreError>| is_mail(id);
        let mut kept: Vec<Result<StoreId, StoreError>> = Vec::new();
        let ghost mut done: int = 0;
        proof {
            assert(listed.take(0) =~= Seq::<Result<Seq<char>, StoreError>>::empty());
            assert(results_view(kept@) =~= Seq::<Result<Seq<char>, StoreError>>::empty());
            reveal(Seq::filter);
        }
        loop
            invariant
                0 <= done <= listed.len(),
                enumerates(listed, self@.files, self@.location),
                pred == (|id: Result<Seq<char>, StoreError>| is_mail(id)),
                all.remaining() == listed.skip(done),
                results_view(kept@) == listed.take(done).filter(pred),
            decreases listed.len() - done,
        {
            let ghost before = listed.take(done);
            let ghost after = listed.take(done + 1);
            match all.next() {
                None => {
                    proof {
                        assert(listed.take(done) =~= listed);
                    }
                    let ids = StoreIdIterator::new(kept);
                    proof {
                        assert(ids.remaining() =~= results_view(kept@));
                        assert(ids.remaining() == listed.filter(pred));
                    }
                    return Ok(ids);
                },
                Some(item) => {
                    proof {
                        assert(listed.skip(done)[0] == listed[done]);
                        assert(listed.skip(done).drop_first() =~= listed.skip(done + 1));
                        assert(after =~= before.push(listed[done]));
                        assert(after.drop_last() =~= before);
                        assert(after.last() == listed[done]);
                        reveal(Seq::filter);
                    }
                    let keep = match &item {
                        Ok(id) => {
                            let names: [&str; 1] = ["mail"];
                            proof {
                                assert(names_view(names@) =~= seq!["mail"@]);
                            }
                            id.is_in_collection(&names)
                        },
                        Err(_) => false,
                    };
                    if keep {
                        let ghost held = results_view(kept@);
                        kept.push(item);
                        proof {
                            assert(results_view(kept@) =~= held.push(listed[done]));
                        }
                    }
                    proof {
                        done = done + 1;
                    }
                },
            }
        }
    }
}

/// The views of a list of ids or errors.
pub open spec fn results_view(v: Seq<Result<StoreId, StoreError>>) -> Seq<
    Result<Seq<char>, StoreError>,
> {
    Seq::new(v.len(), |i: int| crate::storeid::id_result_view(v[i]))
}

} // verus!

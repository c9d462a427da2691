//! The header fields of a mail message.
use vstd::prelude::*;
use crate::strmap::StringMap;

verus! {

/// The header fields of one message, by name.
pub struct MailHeader(pub StringMap<String>);

impl View for MailHeader {
    type V = Map<Seq<char>, Seq<char>>;

    open spec fn view(&self) -> Map<Seq<char>, Seq<char>> {
        self.0@
    }
}

/// The value of the field `field`, where the message has it.
pub open spec fn field_of(fields: Map<Seq<char>, Seq<char>>, field: Seq<char>) -> Option<
    Seq<char>,
> {
    if fields.contains_key(field) {
        Some(fields[field])
    } else {
        None
    }
}

impl MailHeader {
    /// The fields are in order: no name occurs twice.
    pub open spec fn wf(&self) -> bool {
        self.0.wf()
    }

    /// The header with the fields `fields`.
    pub fn new(fields: StringMap<String>) -> (r: MailHeader)
        ensures
            r@ == fields@,
            r.wf() == fields.wf(),
    {
        MailHeader(fields)
    }

    /// The value of the field `field`.
    pub fn get_field(&self, field: &str) -> (r: Option<String>)
        requires
            self.wf(),
        ensures
            crate::mail::config::text_view(r) == field_of(self@, field@),
    {
        match self.0.get(field) {
            Some(value) => Some(value.clone()),
            None => None,
        }
    }

    /// The value of the field `From`.
    pub fn get_from(&self) -> (r: Option<String>)
        requires
            self.wf(),
        ensures
            crate::mail::config::text_view(r) == field_of(self@, "From"@),
    {
        self.get_field("From")
    }

    /// The value of the field `To`.
    pub fn get_to(&self) -> (r: Option<String>)
        requires
            self.wf(),
        ensures
            crate::mail::config::text_view(r) == field_of(self@, "To"@),
    {
        self.get_field("To")
    }

    /// The value of the field `Subject`.
    pub fn get_subject(&self) -> (r: Option<String>)
        requires
            self.wf(),
        ensures
            crate::mail::config::text_view(r) == field_of(self@, "Subject"@),
    {
        self.get_field("Subject")
    }

    /// The value of the field `Message-ID`.
    pub fn get_message_id(&self) -> (r: Option<String>)
        requires
            self.wf(),
        ensures
            crate::mail::config::text_view(r) == field_of(self@, "Message-ID"@),
    {
        self.get_field("Message-ID")
    }

    /// The value of the field `In-Reply-To`.
    pub fn get_in_reply_to(&self) -> (r: Option<String>)
        requires
            self.wf(),
        ensures
            crate::mail::config::text_view(r) == field_of(self@, "In-Reply-To"@),
    {
        self.get_field("In-Reply-To")
    }
}

} // verus!

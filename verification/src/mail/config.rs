//! The configuration of mail accounts and of the commands that fetch and send mail.
use vstd::prelude::*;
use crate::text::same_text;

verus! {

/// What the configuration of one account is.
pub ghost struct MailAccountView {
    pub name: Seq<char>,
    pub outgoingbox: Seq<char>,
    pub draftbox: Seq<char>,
    pub sentbox: Seq<char>,
    pub maildirroot: Seq<char>,
    pub fetchcommand: Option<Seq<char>>,
    pub postfetchcommand: Option<Seq<char>>,
    pub sendcommand: Option<Seq<char>>,
    pub postsendcommand: Option<Seq<char>>,
}

/// The configuration of a single mail account. Where it names no command of its own, the
/// command of the whole configuration is used.
#[derive(Debug)]
pub struct MailAccountConfig {
    pub name: String,
    pub outgoingbox: String,
    pub draftbox: String,
    pub sentbox: String,
    pub maildirroot: String,
    pub fetchcommand: Option<String>,
    pub postfetchcommand: Option<String>,
    pub sendcommand: Option<String>,
    pub postsendcommand: Option<String>,
}

/// The view of optional text.
pub open spec fn text_view(s: Option<String>) -> Option<Seq<char>> {
    match s {
        Some(t) => Some(t@),
        None => None,
    }
}

/// The view of optional borrowed text.
pub open spec fn ref_view(s: Option<&String>) -> Option<Seq<char>> {
    match s {
        Some(t) => Some(t@),
        None => None,
    }
}

impl View for MailAccountConfig {
    type V = MailAccountView;

    open spec fn view(&self) -> MailAccountView {
        MailAccountView {
            name: self.name@,
            outgoingbox: self.outgoingbox@,
            draftbox: self.draftbox@,
            sentbox: self.sentbox@,
            maildirroot: self.maildirroot@,
            fetchcommand: text_view(self.fetchcommand),
            postfetchcommand: text_view(self.postfetchcommand),
            sendcommand: text_view(self.sendcommand),
            postsendcommand: text_view(self.postsendcommand),
        }
    }
}

/// What a mail configuration is.
pub ghost struct MailConfigView {
    pub default_account: Seq<char>,
    pub accounts: Seq<MailAccountView>,
    pub fetchcommand: Seq<char>,
    pub postfetchcommand: Option<Seq<char>>,
    pub sendcommand: Seq<char>,
    pub postsendcommand: Option<Seq<char>>,
}

/// A full mail configuration.
#[derive(Debug)]
pub struct MailConfig {
    default_account: String,
    accounts: Vec<MailAccountConfig>,
    fetchcommand: String,
    postfetchcommand: Option<String>,
    sendcommand: String,
    postsendcommand: Option<String>,
}

/// The views of a list of accounts.
pub open spec fn accounts_view(accounts: Seq<MailAccountConfig>) -> Seq<MailAccountView> {
    Seq::new(accounts.len(), |i: int| accounts[i]@)
}

impl View for MailConfig {
    type V = MailConfigView;

    closed spec fn view(&self) -> MailConfigView {
        MailConfigView {
            default_account: self.default_account@,
            accounts: accounts_view(self.accounts@),
            fetchcommand: self.fetchcommand@,
            postfetchcommand: text_view(self.postfetchcommand),
            sendcommand: self.sendcommand@,
            postsendcommand: text_view(self.postsendcommand),
        }
    }
}

/// The position of the first account named `name` at or after `from`.
pub open spec fn account_index_from(accounts: Seq<MailAccountView>, name: Seq<char>, from: int)
    -> Option<int>
    decreases accounts.len() - from,
{
    if from >= accounts.len() {
        None
    } else if accounts[from].name == name {
        Some(from)
    } else {
        account_index_from(accounts, name, from + 1)
    }
}

/// The first account named `name`.
pub open spec fn account_named(accounts: Seq<MailAccountView>, name: Seq<char>) -> Option<
    MailAccountView,
> {
    match account_index_from(accounts, name, 0) {
        Some(i) => Some(accounts[i]),
        None => None,
    }
}

/// The command to fetch mail for the account `name`: the account's own, else that of the
/// whole configuration.
pub open spec fn fetchcommand_for(c: MailConfigView, name: Seq<char>) -> Seq<char> {
    match account_named(c.accounts, name) {
        Some(a) => match a.fetchcommand {
            Some(command) => command,
            None => c.fetchcommand,
        },
        None => c.fetchcommand,
    }
}

/// The command to run after fetching mail for the account `name`: the account's own, else
/// that of the whole configuration.
pub open spec fn postfetchcommand_for(c: MailConfigView, name: Seq<char>) -> Option<Seq<char>> {
    match account_named(c.accounts, name) {
        Some(a) => match a.postfetchcommand {
            Some(command) => Some(command),
            None => c.postfetchcommand,
        },
        None => c.postfetchcommand,
    }
}

/// The command to send mail for the account `name`: the account's own, else that of the
/// whole configuration.
pub open spec fn sendcommand_for(c: MailConfigView, name: Seq<char>) -> Seq<char> {
    match account_named(c.accounts, name) {
        Some(a) => match a.sendcommand {
            Some(command) => command,
            None => c.sendcommand,
        },
        None => c.sendcommand,
    }
}

/// The command to run after sending mail for the account `name`: the account's own, else
/// that of the whole configuration.
pub open spec fn postsendcommand_for(c: MailConfigView, name: Seq<char>) -> Option<Seq<char>> {
    match account_named(c.accounts, name) {
        Some(a) => match a.postsendcommand {
            Some(command) => Some(command),
            None => c.postsendcommand,
        },
        None => c.postsendcommand,
    }
}

impl MailConfig {
    /// A configuration of the given parts.
    pub fn new(
        default_account: String,
        accounts: Vec<MailAccountConfig>,
        fetchcommand: String,
        postfetchcommand: Option<String>,
        sendcommand: String,
        postsendcommand: Option<String>,
    ) -> (r: MailConfig)
        ensures
            r@ == (MailConfigView {
                default_account: default_account@,
                accounts: accounts_view(accounts@),
                fetchcommand: fetchcommand@,
                postfetchcommand: text_view(postfetchcommand),
                sendcommand: sendcommand@,
                postsendcommand: text_view(postsendcommand),
            }),
    {
        MailConfig {
            default_account,
            accounts,
            fetchcommand,
            postfetchcommand,
            sendcommand,
            postsendcommand,
        }
    }

    /// The name of the account that is used where none is named.
    pub fn default_account(&self) -> (r: &String)
        ensures
            r@ == self@.default_account,
    {
        &self.default_account
    }

    /// The accounts.
    pub fn accounts(&self) -> (r: &Vec<MailAccountConfig>)
        ensures
            accounts_view(r@) == self@.accounts,
    {
        &self.accounts
    }

    /// The command to fetch mail.
    pub fn fetchcommand(&self) -> (r: &String)
        ensures
            r@ == self@.fetchcommand,
    {
        &self.fetchcommand
    }

    /// The command to run after fetching mail, if there is one.
    pub fn postfetchcommand(&self) -> (r: Option<&String>)
        ensures
            ref_view(r) == self@.postfetchcommand,
    {
        match &self.postfetchcommand {
            Some(command) => Some(command),
            None => None,
        }
    }

    /// The command to send mail.
    pub fn sendcommand(&self) -> (r: &String)
        ensures
            r@ == self@.sendcommand,
    {
        &self.sendcommand
    }

    /// The command to run after sending mail, if there is one.
    pub fn postsendcommand(&self) -> (r: Option<&String>)
        ensures
            ref_view(r) == self@.postsendcommand,
    {
        match &self.postsendcommand {
            Some(command) => Some(command),
            None => None,
        }
    }

    /// The first account named `account_name`.
    fn find_account(&self, account_name: &str) -> (r: Option<&MailAccountConfig>)
        ensures
            match r {
                Some(a) => account_named(self@.accounts, account_name@) == Some(a@),
                None => account_named(self@.accounts, account_name@) is None,
            },
    {
        let mut i: usize = 0;
        while i < self.accounts.len()
            invariant
                i <= self.accounts@.len(),
                self@.accounts == accounts_view(self.accounts@),
                account_index_from(self@.accounts, account_name@, 0) == account_index_from(
                    self@.accounts,
                    account_name@,
                    i as int,
                ),
            decreases self.accounts@.len() - i,
        {
            assert(self@.accounts[i as int] == self.accounts@[i as int]@);
            if same_text(self.accounts[i].name.as_str(), account_name) {
                return Some(&self.accounts[i]);
            }
            i = i + 1;
        }
        None
    }

    /// The command to fetch mail for the account `account_name`.
    pub fn fetchcommand_for_account(&self, account_name: &str) -> (r: &String)
        ensures
            r@ == fetchcommand_for(self@, account_name@),
    {
        match self.find_account(account_name) {
            Some(a) => match &a.fetchcommand {
                Some(command) => command,
                None => &self.fetchcommand,
            },
            None => &self.fetchcommand,
        }
    }

    /// The command to run after fetching mail for the account `account_name`.
    pub fn postfetchcommand_for_account(&self, account_name: &str) -> (r: Option<&String>)
        ensures
            ref_view(r) == postfetchcommand_for(self@, account_name@),
    {
        match self.find_account(account_name) {
            Some(a) => match &a.postfetchcommand {
                Some(command) => Some(command),
                None => self.postfetchcommand(),
            },
            None => self.postfetchcommand(),
        }
    }

    /// The command to send mail for the account `account_name`.
    pub fn sendcommand_for_account(&self, account_name: &str) -> (r: &String)
        ensures
            r@ == sendcommand_for(self@, account_name@),
    {
        match self.find_account(account_name) {
            Some(a) => match &a.sendcommand {
                Some(command) => command,
                None => &self.sendcommand,
            },
            None => &self.sendcommand,
        }
    }

    /// The command to run after sending mail for the account `account_name`.
    pub fn postsendcommand_for_account(&self, account_name: &str) -> (r: Option<&String>)
        ensures
            ref_view(r) == postsendcommand_for(self@, account_name@),
    {
        match self.find_account(account_name) {
            Some(a) => match &a.postsendcommand {
                Some(command) => Some(command),
                None => self.postsendcommand(),
            },
            None => self.postsendcommand(),
        }
    }
}

} // verus!

//! The structured tree that an entry carries as its header.
use vstd::prelude::*;

verus! {

/// The mathematical value of a header tree.
pub ghost enum Tree {
    /// A string.
    Text(Seq<char>),
    /// An integer.
    Integer(int),
    /// A floating-point number, as written.
    Float(Seq<char>),
    /// A truth value.
    Boolean(bool),
    /// A date, a time or both, as written.
    Datetime(Seq<char>),
    /// A list of values.
    Array(Seq<Tree>),
    /// Named values, in the order in which they are held. Where a name occurs more than
    /// once, the last entry of that name is the one that counts: it is what the table holds
    /// under the name, and what is written for it.
    Table(Seq<(Seq<char>, Tree)>),
}

/// A node of a header tree.
#[derive(Debug, PartialEq, Eq)]
pub enum HeaderValue {
    /// A string.
    String(String),
    /// An integer.
    Integer(i64),
    /// A floating-point number, as written. A text that does not read as such a number is
    /// written as a string.
    Float(String),
    /// A truth value.
    Boolean(bool),
    /// A date, a time or both, as written. A text that does not read as one is written as a
    /// string.
    Datetime(String),
    /// A list of values.
    Array(Vec<HeaderValue>),
    /// Named values. Where a name occurs more than once, the last entry of that name is
    /// the one that counts.
    Table(Vec<(String, HeaderValue)>),
}

/// The mathematical value of `v`.
pub open spec fn tree_of(v: HeaderValue) -> Tree
    decreases v,
{
    match v {
        HeaderValue::String(s) => Tree::Text(s@),
        HeaderValue::Integer(i) => Tree::Integer(i as int),
        HeaderValue::Float(s) => Tree::Float(s@),
        HeaderValue::Boolean(b) => Tree::Boolean(b),
        HeaderValue::Datetime(s) => Tree::Datetime(s@),
        HeaderValue::Array(items) => Tree::Array(
            Seq::new(
                items@.len(),
                |i: int|
                    if 0 <= i < items@.len() {
                        tree_of(items@[i])
                    } else {
                        Tree::Boolean(false)
                    },
            ),
        ),
        HeaderValue::Table(entries) => Tree::Table(
            Seq::new(
                entries@.len(),
                |i: int|
                    if 0 <= i < entries@.len() {
                        (entries@[i].0@, tree_of(entries@[i].1))
                    } else {
                        (Seq::empty(), Tree::Boolean(false))
                    },
            ),
        ),
    }
}

impl View for HeaderValue {
    type V = Tree;

    open spec fn view(&self) -> Tree {
        tree_of(*self)
    }
}

/// The position of the last entry named `key` before position `end`.
pub open spec fn key_index_before(entries: Seq<(Seq<char>, Tree)>, key: Seq<char>, end: int)
    -> Option<int>
    decreases end,
{
    if end <= 0 {
        None
    } else if entries[end - 1].0 == key {
        Some(end - 1)
    } else {
        key_index_before(entries, key, end - 1)
    }
}

/// The position of the entry that counts for `key`: the last entry of that name.
pub open spec fn key_index(entries: Seq<(Seq<char>, Tree)>, key: Seq<char>) -> Option<int> {
    key_index_before(entries, key, entries.len() as int)
}

/// The value that the table `t` holds under `key`: the value of the last entry of that name;
/// nothing where `t` is no table or has no such entry.
pub open spec fn lookup(t: Tree, key: Seq<char>) -> Option<Tree> {
    match t {
        Tree::Table(entries) => match key_index(entries, key) {
            Some(i) => Some(entries[i].1),
            None => None,
        },
        _ => None,
    }
}

/// Whether the entry at position `i` is the one that counts for its name: no later entry
/// has that name.
pub open spec fn counts(entries: Seq<(Seq<char>, Tree)>, i: int) -> bool {
    key_index(entries, entries[i].0) == Some(i)
}

/// The table `t` without its entries named `key`; `t` itself where it is no table.
pub open spec fn without_key(t: Tree, key: Seq<char>) -> Tree {
    match t {
        Tree::Table(entries) => Tree::Table(
            entries.filter(|e: (Seq<char>, Tree)| e.0 != key),
        ),
        _ => t,
    }
}

/// Whether every entry that counts is a table.
pub open spec fn only_tables(entries: Seq<(Seq<char>, Tree)>) -> bool {
    forall|i: int|
        0 <= i < entries.len() && counts(entries, i) ==> (#[trigger] entries[i]).1 is Table
}

/// A position that `key_index_before` reports holds the key, and no later one before `end`
/// does.
pub proof fn lemma_key_index_before(entries: Seq<(Seq<char>, Tree)>, key: Seq<char>, end: int)
    requires
        end <= entries.len(),
    ensures
        match key_index_before(entries, key, end) {
            Some(i) => 0 <= i < end && entries[i].0 == key && forall|j: int|
                i < j < end ==> (#[trigger] entries[j]).0 != key,
            None => forall|j: int| 0 <= j < end ==> (#[trigger] entries[j]).0 != key,
        },
    decreases end,
{
    if end > 0 && entries[end - 1].0 != key {
        lemma_key_index_before(entries, key, end - 1);
    }
}

/// Every name that occurs in a table has an entry that counts for it, and under that name
/// the table holds the value of that entry.
pub proof fn lemma_lookup_counts(entries: Seq<(Seq<char>, Tree)>, i: int)
    requires
        0 <= i < entries.len(),
    ensures
        lookup(Tree::Table(entries), entries[i].0) is Some,
        counts(entries, i) ==> lookup(Tree::Table(entries), entries[i].0) == Some(entries[i].1),
{
    lemma_key_index_before(entries, entries[i].0, entries.len() as int);
}

/// What the view of a table holds: the view of each entry, in order.
pub proof fn lemma_table_view(v: HeaderValue)
    requires
        v is Table,
    ensures
        v@ is Table,
        v@->Table_0.len() == v->Table_0@.len(),
        forall|j: int|
            0 <= j < v->Table_0@.len() ==> (#[trigger] v@->Table_0[j]) == (
                v->Table_0@[j].0@,
                v->Table_0@[j].1@,
            ),
{
}

/// What the view of an array holds: the view of each item, in order.
pub proof fn lemma_array_view(v: HeaderValue)
    requires
        v is Array,
    ensures
        v@ is Array,
        v@->Array_0.len() == v->Array_0@.len(),
        forall|j: int| 0 <= j < v->Array_0@.len() ==> (#[trigger] v@->Array_0[j]) == v->Array_0@[j]@,
{
}

impl Clone for HeaderValue {
    #[verifier::loop_isolation(false)]
    fn clone(&self) -> (r: HeaderValue)
        ensures
            r@ == self@,
        decreases self,
    {
        match self {
            HeaderValue::String(s) => HeaderValue::String(s.clone()),
            HeaderValue::Integer(i) => HeaderValue::Integer(*i),
            HeaderValue::Float(s) => HeaderValue::Float(s.clone()),
            HeaderValue::Boolean(b) => HeaderValue::Boolean(*b),
            HeaderValue::Datetime(s) => HeaderValue::Datetime(s.clone()),
            HeaderValue::Array(items) => {
                let mut out: Vec<HeaderValue> = Vec::new();
                let mut i: usize = 0;
                while i < items.len()
                    invariant
                        i <= items.len(),
                        out@.len() == i,
                        forall|j: int| 0 <= j < i ==> (#[trigger] out@[j])@ == items@[j]@,
                    decreases items.len() - i,
                {
                    let item = items[i].clone();
                    out.push(item);
                    i = i + 1;
                }
                let r = HeaderValue::Array(out);
                proof {
                    lemma_array_view(r);
                    lemma_array_view(*self);
                    assert(r@->Array_0 =~= self@->Array_0);
                }
                r
            },
            HeaderValue::Table(entries) => {
                let mut out: Vec<(String, HeaderValue)> = Vec::new();
                let mut i: usize = 0;
                while i < entries.len()
                    invariant
                        i <= entries.len(),
                        out@.len() == i,
                        forall|j: int|
                            0 <= j < i ==> (#[trigger] out@[j]).0@ == entries@[j].0@
                                && out@[j].1@ == entries@[j].1@,
                    decreases entries.len() - i,
                {
                    let key = entries[i].0.clone();
                    let item = entries[i].1.clone();
                    out.push((key, item));
                    i = i + 1;
                }
                let r = HeaderValue::Table(out);
                proof {
                    lemma_table_view(r);
                    lemma_table_view(*self);
                    assert(r@->Table_0 =~= self@->Table_0);
                }
                r
            },
        }
    }
}

impl HeaderValue {
    /// Whether the value is a table.
    pub fn is_table(&self) -> (r: bool)
        ensures
            r == (self@ is Table),
    {
        match self {
            HeaderValue::Table(_) => true,
            _ => false,
        }
    }

    /// The text of the value, where it is a string.
    pub fn as_str(&self) -> (r: Option<&str>)
        ensures
            match r {
                Some(s) => self@ == Tree::Text(s@),
                None => !(self@ is Text),
            },
    {
        match self {
            HeaderValue::String(s) => Some(s.as_str()),
            _ => None,
        }
    }

    /// The truth value, where the value is one.
    pub fn as_bool(&self) -> (r: Option<bool>)
        ensures
            match r {
                Some(b) => self@ == Tree::Boolean(b),
                None => !(self@ is Boolean),
            },
    {
        match self {
            HeaderValue::Boolean(b) => Some(*b),
            _ => None,
        }
    }

    /// The value that this table holds under `key`: the value of the last entry of that
    /// name.
    pub fn get(&self, key: &str) -> (r: Option<&HeaderValue>)
        ensures
            match r {
                Some(v) => lookup(self@, key@) == Some(v@),
                None => lookup(self@, key@) is None,
            },
    {
        match self.last_index_of(key) {
            Some(i) => match self {
                HeaderValue::Table(entries) => {
                    proof {
                        lemma_table_view(*self);
                    }
                    Some(&entries[i].1)
                },
                _ => None,
            },
            None => None,
        }
    }

    /// The position of the entry that counts for `key` in this table: the last of that
    /// name.
    pub fn last_index_of(&self, key: &str) -> (r: Option<usize>)
        ensures
            match r {
                Some(i) => self is Table && key_index(self@->Table_0, key@) == Some(i as int)
                    && i < self->Table_0@.len(),
                None => lookup(self@, key@) is None,
            },
    {
        match self {
            HeaderValue::Table(entries) => {
                proof {
                    lemma_table_view(*self);
                }
                let mut i: usize = entries.len();
                while i > 0
                    invariant
                        i <= entries.len(),
                        self@ is Table,
                        self@->Table_0.len() == entries@.len(),
                        forall|j: int|
                            0 <= j < entries@.len() ==> (#[trigger] self@->Table_0[j]) == (
                                entries@[j].0@,
                                entries@[j].1@,
                            ),
                        key_index(self@->Table_0, key@) == key_index_before(
                            self@->Table_0,
                            key@,
                            i as int,
                        ),
                    decreases i,
                {
                    assert(self@->Table_0[i as int - 1] == (
                        entries@[i as int - 1].0@,
                        entries@[i as int - 1].1@,
                    ));
                    if crate::text::same_text(entries[i - 1].0.as_str(), key) {
                        return Some(i - 1);
                    }
                    i = i - 1;
                }
                None
            },
            _ => None,
        }
    }

    /// Takes the entries named `key` out of this table, and returns the value that the table
    /// held under `key`.
    pub fn remove_key(&mut self, key: &str) -> (r: Option<HeaderValue>)
        ensures
            final(self)@ == without_key(old(self)@, key@),
            match r {
                Some(v) => lookup(old(self)@, key@) == Some(v@),
                None => lookup(old(self)@, key@) is None,
            },
    {
        let position = self.last_index_of(key);
        let ghost pred = |e: (Seq<char>, Tree)| e.0 != key@;
        let (kept, found) = match &*self {
            HeaderValue::Table(entries) => {
                proof {
                    lemma_table_view(*self);
                }
                let ghost all = self@->Table_0;
                let found = match position {
                    Some(i) => Some(entries[i].1.clone()),
                    None => None,
                };
                let mut kept: Vec<(String, HeaderValue)> = Vec::new();
                let mut i: usize = 0;
                proof {
                    assert(all.take(0) =~= Seq::<(Seq<char>, Tree)>::empty());
                    reveal(Seq::filter);
                    assert(entries_view(kept@) =~= all.take(0).filter(pred));
                }
                while i < entries.len()
                    invariant
                        i <= entries.len(),
                        all.len() == entries@.len(),
                        pred == (|e: (Seq<char>, Tree)| e.0 != key@),
                        forall|j: int|
                            0 <= j < entries@.len() ==> (#[trigger] all[j]) == (
                                entries@[j].0@,
                                entries@[j].1@,
                            ),
                        entries_view(kept@) == all.take(i as int).filter(pred),
                    decreases entries.len() - i,
                {
                    let ghost before = all.take(i as int);
                    let ghost after = all.take(i as int + 1);
                    proof {
                        assert(all[i as int] == (entries@[i as int].0@, entries@[i as int].1@));
                        assert(after =~= before.push(all[i as int]));
                        assert(after.drop_last() =~= before);
                        assert(after.last() == all[i as int]);
                        reveal(Seq::filter);
                    }
                    if !crate::text::same_text(entries[i].0.as_str(), key) {
                        let ghost held = entries_view(kept@);
                        let name = entries[i].0.clone();
                        let value = entries[i].1.clone();
                        kept.push((name, value));
                        proof {
                            assert(entries_view(kept@) =~= held.push(all[i as int]));
                        }
                    }
                    i = i + 1;
                }
                proof {
                    assert(all.take(entries@.len() as int) =~= all);
                }
                (kept, found)
            },
            _ => {
                return None;
            },
        };
        let table = HeaderValue::Table(kept);
        proof {
            lemma_table_view(table);
            assert(table@->Table_0 =~= entries_view(kept@));
        }
        *self = table;
        found
    }

    /// A table with the one entry `key`.
    pub fn table_of(key: String, value: HeaderValue) -> (r: HeaderValue)
        ensures
            r@ == Tree::Table(seq![(key@, value@)]),
    {
        let mut entries: Vec<(String, HeaderValue)> = Vec::new();
        entries.push((key, value));
        let r = HeaderValue::Table(entries);
        proof {
            lemma_table_view(r);
            assert(r@->Table_0 =~= seq![(key@, value@)]);
        }
        r
    }
}

/// The views of the entries of a table.
pub open spec fn entries_view(entries: Seq<(String, HeaderValue)>) -> Seq<(Seq<char>, Tree)> {
    Seq::new(entries.len(), |i: int| (entries[i].0@, entries[i].1@))
}

} // verus!

//! What a front end reports of the value that a header holds at a path: whether it is
//! there, and whether it passes the comparisons that were asked for.
use vstd::prelude::*;
use crate::codec::{header_read, header_read_result, QueryError};
use crate::value::{HeaderValue, Tree};

verus! {

/// Comparisons for an integer. Each that is given has to hold.
#[derive(Debug, Clone, Copy, PartialEq, Eq)]
pub struct IntFilter {
    pub eq: Option<i64>,
    pub neq: Option<i64>,
    pub lt: Option<i64>,
    pub gt: Option<i64>,
    pub lte: Option<i64>,
    pub gte: Option<i64>,
}

impl IntFilter {
    /// Whether `i` passes every comparison that is given.
    pub open spec fn accepts(&self, i: i64) -> bool {
        &&& (self.eq matches Some(c) ==> i == c)
        &&& (self.neq matches Some(c) ==> i != c)
        &&& (self.lt matches Some(c) ==> i < c)
        &&& (self.gt matches Some(c) ==> i > c)
        &&& (self.lte matches Some(c) ==> i <= c)
        &&& (self.gte matches Some(c) ==> i >= c)
    }

    /// Whether `i` passes every comparison that is given.
    pub fn filter(&self, i: i64) -> (r: bool)
        ensures
            r == self.accepts(i),
    {
        let eq = match self.eq {
            Some(c) => i == c,
            None => true,
        };
        let neq = match self.neq {
            Some(c) => i != c,
            None => true,
        };
        let lt = match self.lt {
            Some(c) => i < c,
            None => true,
        };
        let gt = match self.gt {
            Some(c) => i > c,
            None => true,
        };
        let lte = match self.lte {
            Some(c) => i <= c,
            None => true,
        };
        let gte = match self.gte {
            Some(c) => i >= c,
            None => true,
        };
        eq && neq && lt && gt && lte && gte
    }
}

/// Comparisons for a string. Each that is given has to hold.
#[derive(Debug, Clone, PartialEq, Eq)]
pub struct StringFilter {
    pub eq: Option<String>,
    pub neq: Option<String>,
}

impl StringFilter {
    /// Whether `s` passes every comparison that is given.
    pub open spec fn accepts(&self, s: Seq<char>) -> bool {
        &&& (self.eq matches Some(c) ==> s == c@)
        &&& (self.neq matches Some(c) ==> s != c@)
    }

    /// Whether `s` passes every comparison that is given.
    pub fn filter(&self, s: &String) -> (r: bool)
        ensures
            r == self.accepts(s@),
    {
        let eq = match &self.eq {
            Some(c) => *s == *c,
            None => true,
        };
        let neq = match &self.neq {
            Some(c) => !(*s == *c),
            None => true,
        };
        eq && neq
    }
}

/// The integer to report for a header: the value at `path`, if it is an integer that the
/// filter accepts. It is an error if the header cannot be read at `path`.
pub open spec fn int_result(h: Tree, path: Seq<char>, filter: IntFilter) -> Result<
    Option<i64>,
    QueryError,
> {
    match header_read_result(h, path) {
        Err(e) => Err(e),
        Ok(Some(Tree::Integer(i))) => if i64::MIN <= i <= i64::MAX && filter.accepts(i as i64) {
            Ok(Some(i as i64))
        } else {
            Ok(None)
        },
        Ok(_) => Ok(None),
    }
}

/// The integer to report for `header`.
pub fn integer(header: &HeaderValue, path: &str, filter: &IntFilter) -> (r: Result<
    Option<i64>,
    QueryError,
>)
    ensures
        r == int_result(header@, path@, *filter),
{
    match header_read(header, path) {
        Err(e) => Err(e),
        Ok(Some(HeaderValue::Integer(i))) => if filter.filter(i) {
            Ok(Some(i))
        } else {
            Ok(None)
        },
        Ok(_) => Ok(None),
    }
}

/// The string to report for a header: the value at `path`, if it is a string that the
/// filter accepts. It is an error if the header cannot be read at `path`.
pub open spec fn string_result(h: Tree, path: Seq<char>, filter: StringFilter) -> Result<
    Option<Seq<char>>,
    QueryError,
> {
    match header_read_result(h, path) {
        Err(e) => Err(e),
        Ok(Some(Tree::Text(s))) => if filter.accepts(s) {
            Ok(Some(s))
        } else {
            Ok(None)
        },
        Ok(_) => Ok(None),
    }
}

/// The view of a string to report.
pub open spec fn reported_view(r: Result<Option<String>, QueryError>) -> Result<
    Option<Seq<char>>,
    QueryError,
> {
    match r {
        Ok(Some(s)) => Ok(Some(s@)),
        Ok(None) => Ok(None),
        Err(e) => Err(e),
    }
}

/// The string to report for `header`.
pub fn string(header: &HeaderValue, path: &str, filter: &StringFilter) -> (r: Result<
    Option<String>,
    QueryError,
>)
    ensures
        reported_view(r) == string_result(header@, path@, *filter),
{
    match header_read(header, path) {
        Err(e) => Err(e),
        Ok(Some(HeaderValue::String(s))) => if filter.filter(&s) {
            Ok(Some(s))
        } else {
            Ok(None)
        },
        Ok(_) => Ok(None),
    }
}

/// The truth value to report for a header: the value at `path`, if it is true. It is an
/// error if the header cannot be read at `path`.
pub open spec fn boolean_result(h: Tree, path: Seq<char>) -> Result<Option<bool>, QueryError> {
    match header_read_result(h, path) {
        Err(e) => Err(e),
        Ok(Some(Tree::Boolean(true))) => Ok(Some(true)),
        Ok(_) => Ok(None),
    }
}

/// The truth value to report for `header`.
pub fn boolean(header: &HeaderValue, path: &str) -> (r: Result<Option<bool>, QueryError>)
    ensures
        r == boolean_result(header@, path@),
{
    match header_read(header, path) {
        Err(e) => Err(e),
        Ok(Some(HeaderValue::Boolean(b))) => if b {
            Ok(Some(true))
        } else {
            Ok(None)
        },
        Ok(_) => Ok(None),
    }
}

/// Whether a header holds a value at `path`. It is an error if the header cannot be read
/// there.
pub open spec fn has_result(h: Tree, path: Seq<char>) -> Result<bool, QueryError> {
    match header_read_result(h, path) {
        Err(e) => Err(e),
        Ok(found) => Ok(found is Some),
    }
}

/// Whether `header` holds a value at `path`.
pub fn has(header: &HeaderValue, path: &str) -> (r: Result<bool, QueryError>)
    ensures
        r == has_result(header@, path@),
{
    match header_read(header, path) {
        Err(e) => Err(e),
        Ok(found) => Ok(found.is_some()),
    }
}

/// Whether `header` holds no value at `path`.
pub fn hasnt(header: &HeaderValue, path: &str) -> (r: Result<bool, QueryError>)
    ensures
        r == match has_result(header@, path@) {
            Ok(b) => Ok::<bool, QueryError>(!b),
            Err(e) => Err::<bool, QueryError>(e),
        },
{
    match header_read(header, path) {
        Err(e) => Err(e),
        Ok(found) => Ok(found.is_none()),
    }
}

/// The exit code of a front end after one more entry: the code so far where the entry was
/// reported and written; the code of the failure where it could not be written; 1 where
/// there was nothing to report.
pub fn next_exit_code(accu: i32, reported: bool, write_failure: Option<i32>) -> (r: i32)
    ensures
        r == if !reported {
            1
        } else {
            match write_failure {
                Some(code) => code,
                None => accu,
            }
        },
{
    if !reported {
        1
    } else {
        match write_failure {
            Some(code) => code,
            None => accu,
        }
    }
}

} // verus!

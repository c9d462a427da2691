//! Hashes of the content of files that entries refer to.
use vstd::prelude::*;
use vstd::utf8::{decode_utf8, encode_utf8, valid_utf8};
use crate::generators::{sha1_digest, sha1_of};
use crate::text::text_of_bytes;

verus! {

/// A way to hash the content of a file.
pub trait Hasher {
    /// The name of the hash. It is for the hasher to say what it is.
    open spec fn name_text() -> Seq<char> {
        arbitrary()
    }

    /// The hash of `content`, where there is one. It is for the hasher to say what it is.
    open spec fn hash_text(content: Seq<char>) -> Option<Seq<char>> {
        arbitrary()
    }

    /// The name of the hash, under which it is kept in a header.
    fn name() -> (r: &'static str)
        ensures
            r@ == Self::name_text(),
    ;

    /// The hash of `content`.
    fn hash(content: &str) -> (r: Option<String>)
        ensures
            match r {
                Some(h) => Self::hash_text(content@) == Some(h@),
                None => Self::hash_text(content@) is None,
            },
    ;
}

/// The hasher that uses SHA-1. Its hash is the digest read as text, and there is none where
/// the digest is no text in UTF-8.
pub struct Sha1Hasher;

impl Hasher for Sha1Hasher {
    open spec fn name_text() -> Seq<char> {
        "sha1"@
    }

    open spec fn hash_text(content: Seq<char>) -> Option<Seq<char>> {
        if valid_utf8(sha1_of(encode_utf8(content))) {
            Some(decode_utf8(sha1_of(encode_utf8(content))))
        } else {
            None
        }
    }

    fn name() -> (r: &'static str) {
        "sha1"
    }

    fn hash(content: &str) -> (r: Option<String>) {
        text_of_bytes(sha1_digest(content.as_bytes()))
    }
}

} // verus!

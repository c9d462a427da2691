//! Generators of ids for references: the id of a reference is the hash of the file that it
//! refers to, written in hexadecimal.
use vstd::prelude::*;
use sha1::Digest;
use vstd::utf8::{encode_utf8, valid_utf8};
use crate::text::text_of_bytes;
use crate::error::StoreError;
use crate::refstore::UniqueRefPathGenerator;
use crate::storeid::StoreId;

verus! {

/// The SHA-1 digest of `data`.
pub uninterp spec fn sha1_of(data: Seq<u8>) -> Seq<u8>;

/// The SHA-224 digest of `data`.
pub uninterp spec fn sha224_of(data: Seq<u8>) -> Seq<u8>;

/// The SHA-256 digest of `data`.
pub uninterp spec fn sha256_of(data: Seq<u8>) -> Seq<u8>;

/// The SHA-384 digest of `data`.
pub uninterp spec fn sha384_of(data: Seq<u8>) -> Seq<u8>;

/// The SHA-512 digest of `data`.
pub uninterp spec fn sha512_of(data: Seq<u8>) -> Seq<u8>;

/// The SHA3-256 digest of `data`.
pub uninterp spec fn sha3_of(data: Seq<u8>) -> Seq<u8>;

/// Computes the SHA-1 digest of `data` with `sha1::Sha1::digest`.
#[verifier::external_body]
pub(crate) fn sha1_digest(data: &[u8]) -> (r: Vec<u8>)
    ensures
        r@ == sha1_of(data@),
{
    sha1::Sha1::digest(data).to_vec()
}

/// Computes the SHA-224 digest of `data` with `sha2::Sha224::digest`.
#[verifier::external_body]
fn sha224_digest(data: &[u8]) -> (r: Vec<u8>)
    ensures
        r@ == sha224_of(data@),
{
    sha2::Sha224::digest(data).to_vec()
}

/// Computes the SHA-256 digest of `data` with `sha2::Sha256::digest`.
#[verifier::external_body]
fn sha256_digest(data: &[u8]) -> (r: Vec<u8>)
    ensures
        r@ == sha256_of(data@),
{
    sha2::Sha256::digest(data).to_vec()
}

/// Computes the SHA-384 digest of `data` with `sha2::Sha384::digest`.
#[verifier::external_body]
fn sha384_digest(data: &[u8]) -> (r: Vec<u8>)
    ensures
        r@ == sha384_of(data@),
{
    sha2::Sha384::digest(data).to_vec()
}

/// Computes the SHA-512 digest of `data` with `sha2::Sha512::digest`.
#[verifier::external_body]
fn sha512_digest(data: &[u8]) -> (r: Vec<u8>)
    ensures
        r@ == sha512_of(data@),
{
    sha2::Sha512::digest(data).to_vec()
}

/// Computes the SHA3-256 digest of `data` with `sha3::Sha3_256::digest`.
#[verifier::external_body]
fn sha3_digest(data: &[u8]) -> (r: Vec<u8>)
    ensures
        r@ == sha3_of(data@),
{
    sha3::Sha3_256::digest(data).to_vec()
}

/// The sixteen digits of hexadecimal numbers, in order.
pub open spec fn hex_digits() -> Seq<char> {
    seq!['0', '1', '2', '3', '4', '5', '6', '7', '8', '9', 'a', 'b', 'c', 'd', 'e', 'f']
}

/// `bytes` in hexadecimal: two digits for each byte, the high half first, with lower-case
/// letters.
pub open spec fn hex_text(bytes: Seq<u8>) -> Seq<char> {
    Seq::new(
        2 * bytes.len(),
        |i: int|
            if i % 2 == 0 {
                hex_digits()[bytes[i / 2] as int / 16]
            } else {
                hex_digits()[bytes[i / 2] as int % 16]
            },
    )
}

/// Writes `bytes` in hexadecimal with `hex::encode`: two lower-case digits for each byte.
#[verifier::external_body]
fn hex_encode(bytes: &[u8]) -> (r: String)
    ensures
        r@ == hex_text(bytes@),
{
    hex::encode(bytes)
}

/// The first `n` bytes of `data`, with zeros at the end where `data` is shorter.
pub open spec fn padded(data: Seq<u8>, n: nat) -> Seq<u8> {
    Seq::new(n, |i: int| if i < data.len() { data[i] } else { 0u8 })
}

/// The first `n` bytes of `data`, with zeros at the end where `data` is shorter.
fn first_bytes(data: &[u8], n: usize) -> (r: Vec<u8>)
    ensures
        r@ == padded(data@, n as nat),
{
    let mut out: Vec<u8> = Vec::new();
    let mut i: usize = 0;
    while i < n
        invariant
            i <= n,
            out@ == padded(data@, i as nat),
        decreases n - i,
    {
        let b: u8 = if i < data.len() {
            data[i]
        } else {
            0
        };
        out.push(b);
        proof {
            assert(out@ =~= padded(data@, (i + 1) as nat));
        }
        i = i + 1;
    }
    out
}

/// The id of a file by the SHA-1 digest of its content.
pub struct Sha1;

/// The id of a file by the SHA-224 digest of its content.
pub struct Sha224;

/// The id of a file by the SHA-256 digest of its content.
pub struct Sha256;

/// The id of a file by the SHA-384 digest of its content.
pub struct Sha384;

/// The id of a file by the SHA-512 digest of its content.
pub struct Sha512;

/// The id of a file by the SHA3-256 digest of its content.
pub struct Sha3;

/// The hash of the first `n` bytes of a file: nothing where these bytes, with zeros at the
/// end where the file is shorter, are no text in UTF-8; else the digest in hexadecimal.
pub open spec fn hash_of_prefix(data: Seq<u8>, n: nat, digest: spec_fn(Seq<u8>) -> Seq<u8>)
    -> Option<Seq<char>> {
    if valid_utf8(padded(data, n)) {
        Some(hex_text(digest(padded(data, n))))
    } else {
        None
    }
}

/// The view of optional text.
pub open spec fn hash_view(r: Option<String>) -> Option<Seq<char>> {
    match r {
        Some(s) => Some(s@),
        None => None,
    }
}

impl Sha1 {
    /// The hash of the first `n` bytes of the file with the content `data`.
    pub fn hash_n_bytes(data: &[u8], n: usize) -> (r: Option<String>)
        ensures
            hash_view(r) == hash_of_prefix(data@, n as nat, |d: Seq<u8>| sha1_of(d)),
    {
        let buffer = first_bytes(data, n);
        let digest = sha1_digest(buffer.as_slice());
        match text_of_bytes(buffer) {
            None => None,
            Some(_) => Some(hex_encode(digest.as_slice())),
        }
    }
}

impl UniqueRefPathGenerator for Sha1 {
    open spec fn collection_text() -> Seq<char> {
        "ref"@
    }

    open spec fn unique_hash_text(content: Seq<char>) -> Option<Seq<char>> {
        Some(hex_text(sha1_of(encode_utf8(content))))
    }

    open spec fn postprocessed(sid: Seq<char>) -> Result<Seq<char>, StoreError> {
        Ok(sid)
    }

    fn collection() -> (r: &'static str) {
        "ref"
    }

    fn unique_hash(content: &str) -> (r: Option<String>) {
        Some(hex_encode(sha1_digest(content.as_bytes()).as_slice()))
    }

    fn postprocess_storeid(sid: StoreId) -> (r: Result<StoreId, StoreError>) {
        Ok(sid)
    }
}

impl Sha224 {
    /// The hash of the first `n` bytes of the file with the content `data`.
    pub fn hash_n_bytes(data: &[u8], n: usize) -> (r: Option<String>)
        ensures
            hash_view(r) == hash_of_prefix(data@, n as nat, |d: Seq<u8>| sha224_of(d)),
    {
        let buffer = first_bytes(data, n);
        let digest = sha224_digest(buffer.as_slice());
        match text_of_bytes(buffer) {
            None => None,
            Some(_) => Some(hex_encode(digest.as_slice())),
        }
    }
}

impl UniqueRefPathGenerator for Sha224 {
    open spec fn collection_text() -> Seq<char> {
        "ref"@
    }

    open spec fn unique_hash_text(content: Seq<char>) -> Option<Seq<char>> {
        Some(hex_text(sha224_of(encode_utf8(content))))
    }

    open spec fn postprocessed(sid: Seq<char>) -> Result<Seq<char>, StoreError> {
        Ok(sid)
    }

    fn collection() -> (r: &'static str) {
        "ref"
    }

    fn unique_hash(content: &str) -> (r: Option<String>) {
        Some(hex_encode(sha224_digest(content.as_bytes()).as_slice()))
    }

    fn postprocess_storeid(sid: StoreId) -> (r: Result<StoreId, StoreError>) {
        Ok(sid)
    }
}

impl Sha256 {
    /// The hash of the first `n` bytes of the file with the content `data`.
    pub fn hash_n_bytes(data: &[u8], n: usize) -> (r: Option<String>)
        ensures
            hash_view(r) == hash_of_prefix(data@, n as nat, |d: Seq<u8>| sha256_of(d)),
    {
        let buffer = first_bytes(data, n);
        let digest = sha256_digest(buffer.as_slice());
        match text_of_bytes(buffer) {
            None => None,
            Some(_) => Some(hex_encode(digest.as_slice())),
        }
    }
}

impl UniqueRefPathGenerator for Sha256 {
    open spec fn collection_text() -> Seq<char> {
        "ref"@
    }

    open spec fn unique_hash_text(content: Seq<char>) -> Option<Seq<char>> {
        Some(hex_text(sha256_of(encode_utf8(content))))
    }

    open spec fn postprocessed(sid: Seq<char>) -> Result<Seq<char>, StoreError> {
        Ok(sid)
    }

    fn collection() -> (r: &'static str) {
        "ref"
    }

    fn unique_hash(content: &str) -> (r: Option<String>) {
        Some(hex_encode(sha256_digest(content.as_bytes()).as_slice()))
    }

    fn postprocess_storeid(sid: StoreId) -> (r: Result<StoreId, StoreError>) {
        Ok(sid)
    }
}

impl Sha384 {
    /// The hash of the first `n` bytes of the file with the content `data`.
    pub fn hash_n_bytes(data: &[u8], n: usize) -> (r: Option<String>)
        ensures
            hash_view(r) == hash_of_prefix(data@, n as nat, |d: Seq<u8>| sha384_of(d)),
    {
        let buffer = first_bytes(data, n);
        let digest = sha384_digest(buffer.as_slice());
        match text_of_bytes(buffer) {
            None => None,
            Some(_) => Some(hex_encode(digest.as_slice())),
        }
    }
}

impl UniqueRefPathGenerator for Sha384 {
    open spec fn collection_text() -> Seq<char> {
        "ref"@
    }

    open spec fn unique_hash_text(content: Seq<char>) -> Option<Seq<char>> {
        Some(hex_text(sha384_of(encode_utf8(content))))
    }

    open spec fn postprocessed(sid: Seq<char>) -> Result<Seq<char>, StoreError> {
        Ok(sid)
    }

    fn collection() -> (r: &'static str) {
        "ref"
    }

    fn unique_hash(content: &str) -> (r: Option<String>) {
        Some(hex_encode(sha384_digest(content.as_bytes()).as_slice()))
    }

    fn postprocess_storeid(sid: StoreId) -> (r: Result<StoreId, StoreError>) {
        Ok(sid)
    }
}

impl Sha512 {
    /// The hash of the first `n` bytes of the file with the content `data`.
    pub fn hash_n_bytes(data: &[u8], n: usize) -> (r: Option<String>)
        ensures
            hash_view(r) == hash_of_prefix(data@, n as nat, |d: Seq<u8>| sha512_of(d)),
    {
        let buffer = first_bytes(data, n);
        let digest = sha512_digest(buffer.as_slice());
        match text_of_bytes(buffer) {
            None => None,
            Some(_) => Some(hex_encode(digest.as_slice())),
        }
    }
}

impl UniqueRefPathGenerator for Sha512 {
    open spec fn collection_text() -> Seq<char> {
        "ref"@
    }

    open spec fn unique_hash_text(content: Seq<char>) -> Option<Seq<char>> {
        Some(hex_text(sha512_of(encode_utf8(content))))
    }

    open spec fn postprocessed(sid: Seq<char>) -> Result<Seq<char>, StoreError> {
        Ok(sid)
    }

    fn collection() -> (r: &'static str) {
        "ref"
    }

    fn unique_hash(content: &str) -> (r: Option<String>) {
        Some(hex_encode(sha512_digest(content.as_bytes()).as_slice()))
    }

    fn postprocess_storeid(sid: StoreId) -> (r: Result<StoreId, StoreError>) {
        Ok(sid)
    }
}

impl Sha3 {
    /// The hash of the first `n` bytes of the file with the content `data`.
    pub fn hash_n_bytes(data: &[u8], n: usize) -> (r: Option<String>)
        ensures
            hash_view(r) == hash_of_prefix(data@, n as nat, |d: Seq<u8>| sha3_of(d)),
    {
        let buffer = first_bytes(data, n);
        let digest = sha3_digest(buffer.as_slice());
        match text_of_bytes(buffer) {
            None => None,
            Some(_) => Some(hex_encode(digest.as_slice())),
        }
    }
}

impl UniqueRefPathGenerator for Sha3 {
    open spec fn collection_text() -> Seq<char> {
        "ref"@
    }

    open spec fn unique_hash_text(content: Seq<char>) -> Option<Seq<char>> {
        Some(hex_text(sha3_of(encode_utf8(content))))
    }

    open spec fn postprocessed(sid: Seq<char>) -> Result<Seq<char>, StoreError> {
        Ok(sid)
    }

    fn collection() -> (r: &'static str) {
        "ref"
    }

    fn unique_hash(content: &str) -> (r: Option<String>) {
        Some(hex_encode(sha3_digest(content.as_bytes()).as_slice()))
    }

    fn postprocess_storeid(sid: StoreId) -> (r: Result<StoreId, StoreError>) {
        Ok(sid)
    }
}

} // verus!

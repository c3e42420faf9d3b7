//! Content digests: what tells a file that is up to date from one that has
//! to be fetched again.

use sha2::Digest;
use vstd::prelude::*;

verus! {

/// The length in bytes from which on data has no SHA-256 hash: the hash is
/// defined for messages of less than 2 to the 64th bits.
pub const HASH_LIMIT: u64 = 0x2000_0000_0000_0000;

/// The SHA-256 hash of `data`, as computed by the `sha2` crate.
pub uninterp spec fn sha256(data: Seq<u8>) -> Seq<u8>;

/// `sha2::Sha256::digest` hashes the whole of `data` in one call and returns
/// the hash; the contract gives that hash its name and claims nothing else.
/// Data too long to have a hash is kept out: on it the crate's count of the
/// bits would overflow.
#[verifier::external_body]
fn sha256_of(data: &[u8]) -> (hash: Vec<u8>)
    requires
        data@.len() < HASH_LIMIT,
    ensures
        hash@ == sha256(data@),
{
    sha2::Sha256::digest(data).to_vec()
}

/// The lower-case hexadecimal digit of a value below 16: `0` to `9`, then
/// `a` to `f`.
pub open spec fn hex_digit(value: u8) -> char {
    if value < 10 {
        (value + 48) as char
    } else {
        (value + 87) as char
    }
}

/// The lower-case hexadecimal text of `bytes`: two digits for each byte, the
/// high half first.
pub open spec fn hex_lower(bytes: Seq<u8>) -> Seq<char> {
    Seq::new(
        2 * bytes.len(),
        |i: int|
            if i % 2 == 0 {
                hex_digit(bytes[i / 2] / 16)
            } else {
                hex_digit(bytes[i / 2] % 16)
            },
    )
}

/// The digest of a file with the given content, as a manifest writes it.
pub open spec fn digest_of(content: Seq<u8>) -> Seq<char> {
    hex_lower(sha256(content))
}

/// What reading a local file gave, as plain values.
pub open spec fn content_view(content: Option<Vec<u8>>) -> Option<Seq<u8>> {
    match content {
        Some(bytes) => Some(bytes@),
        None => None,
    }
}

/// The digest of a local file: none where the file is absent, cannot be
/// read, or is too long to have a hash.
pub open spec fn local_digest_of(content: Option<Seq<u8>>) -> Option<Seq<char>> {
    match content {
        Some(bytes) => if bytes.len() < HASH_LIMIT {
            Some(digest_of(bytes))
        } else {
            None
        },
        None => None,
    }
}

/// Whether a file has to be fetched: it has, unless the local file has a
/// digest and that digest is the expected one, character for character.
pub open spec fn differs(expected: Seq<char>, local: Option<Seq<char>>) -> bool {
    local != Some(expected)
}

fn digit(value: u8) -> (c: char)
    requires
        value < 16,
    ensures
        c == hex_digit(value),
{
    if value < 10 {
        (value + 48) as char
    } else {
        (value + 87) as char
    }
}

/// The lower-case hexadecimal text of `bytes`.
pub fn hex_encode(bytes: &[u8]) -> (text: String)
    ensures
        text@ == hex_lower(bytes@),
{
    let mut text = String::new();
    let mut i: usize = 0;
    while i < bytes.len()
        invariant
            i <= bytes@.len(),
            text@ == hex_lower(bytes@.take(i as int)),
        decreases bytes@.len() - i,
    {
        let byte: u8 = bytes[i];
        text.push(digit(byte / 16));
        text.push(digit(byte % 16));
        i = i + 1;
        assert(text@ =~= hex_lower(bytes@.take(i as int)));
    }
    assert(bytes@.take(bytes@.len() as int) =~= bytes@);
    text
}

/// The digest of a file with the given content.
pub fn file_digest(content: &[u8]) -> (digest: String)
    requires
        content@.len() < HASH_LIMIT,
    ensures
        digest@ == digest_of(content@),
{
    let hash = sha256_of(content);
    hex_encode(hash.as_slice())
}

/// The digest of a local file, given what reading it gave: its content, or
/// nothing where it is absent or unreadable. A file that cannot be hashed
/// has no digest either.
pub fn local_digest(content: &Option<Vec<u8>>) -> (digest: Option<String>)
    ensures
        match digest {
            Some(text) => local_digest_of(content_view(*content)) == Some(text@),
            None => local_digest_of(content_view(*content)) is None,
        },
{
    match content {
        Some(bytes) => if (bytes.len() as u64) < HASH_LIMIT {
            Some(file_digest(bytes.as_slice()))
        } else {
            None
        },
        None => None,
    }
}

/// Whether a file with the expected digest has to be fetched, given the
/// digest of the local file.
pub fn needs_fetch(expected: &String, local: &Option<String>) -> (fetch: bool)
    ensures
        fetch == differs(
            expected@,
            match local {
                Some(text) => Some(text@),
                None => None,
            },
        ),
{
    match local {
        Some(text) => !(*text == *expected),
        None => true,
    }
}

} // verus!

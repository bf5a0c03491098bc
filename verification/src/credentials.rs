//! The credentials presented to the remote, and how the token is kept.

use crate::git_manager::SyncError;
use crate::text::{chars_of, split, split_on, string_of, texts};
use vstd::prelude::*;
use vstd::string::StringSliceAdditionalSpecFns;

verus! {

/// A user name and a secret token.
#[derive(Debug, Clone, PartialEq)]
pub struct Credentials {
    pub username: String,
    pub token: String,
}

/// The message for credentials that are not a user name and a token
/// around one colon.
pub open spec fn invalid_credentials_message() -> Seq<char> {
    "Invalid credentials format. Expected 'username:token'"@
}

/// The user name and token that a text gives: it must hold exactly one
/// colon, with the name before it and the token after it.
pub open spec fn credentials_in(s: Seq<char>) -> Option<(Seq<char>, Seq<char>)> {
    let parts = split_on(s, ':');
    if parts.len() == 2 {
        Some((parts[0], parts[1]))
    } else {
        None
    }
}

/// Reads credentials written as `username:token`.
pub fn parse_credentials(s: &str) -> (r: Result<Credentials, String>)
    ensures
        match r {
            Ok(c) => credentials_in(s@) == Some((c.username@, c.token@)),
            Err(msg) => credentials_in(s@) is None && msg@ == invalid_credentials_message(),
        },
{
    let parts = split(&chars_of(s), ':');
    assert(texts(parts@).len() == parts@.len());
    if parts.len() != 2 {
        return Err("Invalid credentials format. Expected 'username:token'".to_owned());
    }
    assert(texts(parts@)[0] == parts@[0]@);
    assert(texts(parts@)[1] == parts@[1]@);
    Ok(Credentials { username: string_of(&parts[0]), token: string_of(&parts[1]) })
}

/// The credentials of a batch, or the error that ends the batch before any
/// unit starts where there are none.
pub fn require_credentials(stored: Option<Credentials>) -> (r: Result<Credentials, SyncError>)
    ensures
        match stored {
            Some(c) => r == Ok::<Credentials, SyncError>(c),
            None => r == Err::<Credentials, SyncError>(SyncError::ConfigurationMissing),
        },
{
    match stored {
        Some(c) => Ok(c),
        None => Err(SyncError::ConfigurationMissing),
    }
}

/// A byte with every bit turned.
pub open spec fn flipped(b: u8) -> u8 {
    b ^ 0xFF
}

/// The bytes of a token as they are stored: each with every bit turned.
pub open spec fn obfuscated(bytes: Seq<u8>) -> Seq<u8> {
    Seq::new(bytes.len(), |i: int| flipped(bytes[i]))
}

/// Turns every bit of every byte. Doing so twice gives the bytes back.
pub fn obfuscate(bytes: &Vec<u8>) -> (r: Vec<u8>)
    ensures
        r@ == obfuscated(bytes@),
{
    let mut out: Vec<u8> = Vec::new();
    let mut i: usize = 0;
    while i < bytes.len()
        invariant
            i <= bytes.len(),
            out@ == obfuscated(bytes@).take(i as int),
        decreases bytes.len() - i,
    {
        let b = bytes[i] ^ 0xFF;
        out.push(b);
        assert(obfuscated(bytes@).take(i + 1) == obfuscated(bytes@).take(i as int).push(b));
        i = i + 1;
    }
    assert(obfuscated(bytes@).take(bytes.len() as int) == obfuscated(bytes@));
    out
}

/// Obfuscating twice gives the bytes back.
pub proof fn lemma_obfuscate_twice(bytes: Seq<u8>)
    ensures
        obfuscated(obfuscated(bytes)) == bytes,
{
    assert forall|i: int| 0 <= i < bytes.len() implies obfuscated(obfuscated(bytes))[i]
        == bytes[i] by {
        let b = bytes[i];
        assert((b ^ 0xFF) ^ 0xFF == b) by (bit_vector);
    }
}

/// The bytes under which a token is stored.
pub fn stored_token(token: &str) -> (r: Vec<u8>)
    ensures
        r@ == obfuscated(token.spec_bytes()),
{
    let bytes = token.as_bytes_vec();
    obfuscate(&bytes)
}

} // verus!

//! Account credentials attached to outgoing requests.

use vstd::prelude::*;

verus! {

/// An immutable identity/secret pair. Credentials are optional on every
/// request; when the caller supplies none, the request carries empty-string
/// fields instead (the wire schema has no notion of an absent field).
#[derive(Debug, Clone, PartialEq, Eq)]
pub struct Credentials {
    pub username: String,
    pub token: String,
}

impl Credentials {
    /// Build a credential pair from the given identity and secret.
    pub fn new(username: &str, token: &str) -> (r: Self)
        ensures
            r.username@ == username@,
            r.token@ == token@,
    {
        Self { username: username.to_owned(), token: token.to_owned() }
    }
}

} // verus!

//! The four ways in which a request can fail Bearer-token authentication.
use vstd::prelude::*;

verus! {

/// A failed authentication or authorization, as RFC 6750 classifies it.
///
/// `realm` names the protection space. `scope`, where present, lists the
/// scope tokens in the order in which they are to be shown.
#[derive(Debug, Clone)]
pub enum Error {
    /// No credential was presented. `back` is where to send the client once
    /// it has authenticated; it is no part of the challenge.
    MissingAuthentication { realm: String, back: Option<String>, scope: Option<Vec<String>> },
    /// The authentication request is malformed.
    InvalidRequest { realm: String, scope: Option<Vec<String>>, description: String },
    /// A credential was presented, but it is invalid or has expired.
    InvalidToken { realm: String, scope: Option<Vec<String>>, description: String },
    /// The credential is valid, but does not grant the scope that is needed.
    InsufficientScope { realm: String, scope: Option<Vec<String>>, description: String },
}

/// The texts of a list of strings, in the same order.
pub open spec fn texts(strings: Seq<String>) -> Seq<Seq<char>> {
    Seq::new(strings.len(), |i: int| strings[i]@)
}

/// The texts of an optional list of scope tokens.
pub open spec fn token_texts(scope: Option<Vec<String>>) -> Option<Seq<Seq<char>>> {
    match scope {
        None => None,
        Some(tokens) => Some(texts(tokens@)),
    }
}

impl Error {
    /// The realm, as text.
    pub open spec fn realm_text(self) -> Seq<char> {
        match self {
            Error::MissingAuthentication { realm, .. } => realm@,
            Error::InvalidRequest { realm, .. } => realm@,
            Error::InvalidToken { realm, .. } => realm@,
            Error::InsufficientScope { realm, .. } => realm@,
        }
    }

    /// The scope tokens, as texts, where a scope is present.
    pub open spec fn scope_tokens(self) -> Option<Seq<Seq<char>>> {
        match self {
            Error::MissingAuthentication { scope, .. } => token_texts(scope),
            Error::InvalidRequest { scope, .. } => token_texts(scope),
            Error::InvalidToken { scope, .. } => token_texts(scope),
            Error::InsufficientScope { scope, .. } => token_texts(scope),
        }
    }

    /// The error code of RFC 6750 for this failure. A missing credential has
    /// none.
    pub open spec fn code(self) -> Option<Seq<char>> {
        match self {
            Error::MissingAuthentication { .. } => None,
            Error::InvalidRequest { .. } => Some("invalid_request"@),
            Error::InvalidToken { .. } => Some("invalid_token"@),
            Error::InsufficientScope { .. } => Some("insufficient_scope"@),
        }
    }

    /// The description of the failure; empty for a missing credential, which
    /// carries none.
    pub open spec fn description_text(self) -> Seq<char> {
        match self {
            Error::MissingAuthentication { .. } => Seq::empty(),
            Error::InvalidRequest { description, .. } => description@,
            Error::InvalidToken { description, .. } => description@,
            Error::InsufficientScope { description, .. } => description@,
        }
    }
}

/// The failure of a request that presented no credential.
pub fn missing_authentication(
    realm: String,
    back: Option<String>,
    scope: Option<Vec<String>>,
) -> (e: Error)
    ensures
        e == (Error::MissingAuthentication { realm, back, scope }),
{
    Error::MissingAuthentication { realm, back, scope }
}

/// The failure of a malformed authentication request.
pub fn invalid_request(realm: String, scope: Option<Vec<String>>, description: String) -> (e: Error)
    ensures
        e == (Error::InvalidRequest { realm, scope, description }),
{
    Error::InvalidRequest { realm, scope, description }
}

/// The failure of a request whose credential is invalid. An invalid token
/// has no use for a redirect target, so `back` is dropped.
pub fn invalid_token(
    realm: String,
    back: Option<String>,
    scope: Option<Vec<String>>,
    description: String,
) -> (e: Error)
    ensures
        e == (Error::InvalidToken { realm, scope, description }),
{
    let _ = back;
    Error::InvalidToken { realm, scope, description }
}

/// The failure of a request whose credential lacks a required scope.
pub fn insufficient_scope(realm: String, scope: Option<Vec<String>>, description: String) -> (e:
    Error)
    ensures
        e == (Error::InsufficientScope { realm, scope, description }),
{
    Error::InsufficientScope { realm, scope, description }
}

} // verus!

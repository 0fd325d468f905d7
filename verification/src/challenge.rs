//! The `WWW-Authenticate` challenge of a failure, after RFC 6750, section 3.
use crate::error::{texts, token_texts, Error};
use crate::header::{
    header_value_from_str, header_value_octets, is_header_text, lemma_header_text_octets,
};
use http::header::InvalidHeaderValue;
use http::HeaderValue;
use vstd::prelude::*;
use vstd::string::*;
use vstd::utf8::encode_utf8;

verus! {

/// The tokens, in order, with one space between each two of them.
pub open spec fn joined(tokens: Seq<Seq<char>>) -> Seq<char>
    decreases tokens.len(),
{
    if tokens.len() == 0 {
        Seq::empty()
    } else if tokens.len() == 1 {
        tokens[0]
    } else {
        joined(tokens.drop_last()) + seq![' '] + tokens.last()
    }
}

/// What stands between the quotes of the `scope` attribute: the joined
/// tokens, and nothing where no scope is present.
pub open spec fn scope_text(scope: Option<Seq<Seq<char>>>) -> Seq<char> {
    match scope {
        None => Seq::empty(),
        Some(tokens) => joined(tokens),
    }
}

/// One attribute of a challenge: the name, `=`, and the value between double
/// quotes. The value stands there as it is: nothing in it is escaped.
pub open spec fn attribute(name: Seq<char>, value: Seq<char>) -> Seq<char> {
    name + "=\""@ + value + "\""@
}

impl Error {
    /// The attributes `error_code` and `error_description`, each led in by a
    /// space; empty for a missing credential.
    pub open spec fn error_fragment(self) -> Seq<char> {
        match self.code() {
            None => Seq::empty(),
            Some(code) => " "@ + attribute("error_code"@, code) + " "@ + attribute(
                "error_description"@,
                self.description_text(),
            ),
        }
    }

    /// The whole challenge: the scheme, the realm, the scope, whether one is
    /// present or not, and the error attributes where the failure has a code.
    pub open spec fn challenge_text(self) -> Seq<char> {
        "Bearer "@ + attribute("realm"@, self.realm_text()) + " "@ + attribute(
            "scope"@,
            scope_text(self.scope_tokens()),
        ) + self.error_fragment()
    }
}

/// The composed challenge could not be carried as a header value.
#[derive(Debug)]
pub struct RenderError {
    /// What the header-value grammar had to say.
    pub cause: InvalidHeaderValue,
}

/// `outcome` is what rendering `e` gives: a header value that holds the
/// UTF-8 encoding of the challenge where every character of the challenge
/// may stand in a header value, and a failure where one may not.
pub open spec fn renders_to(e: Error, outcome: Result<HeaderValue, RenderError>) -> bool {
    &&& outcome.is_ok() <==> is_header_text(e.challenge_text())
    &&& outcome matches Ok(value) ==> header_value_octets(value) == encode_utf8(
        e.challenge_text(),
    )
}

/// The scope tokens joined by single spaces; empty where `scope` is absent.
pub fn scopes(scope: &Option<Vec<String>>) -> (text: String)
    ensures
        text@ == scope_text(token_texts(*scope)),
{
    let mut text = String::new();
    if let Some(tokens) = scope {
        let ghost all = texts(tokens@);
        let mut i: usize = 0;
        while i < tokens.len()
            invariant
                i <= tokens.len(),
                all == texts(tokens@),
                text@ == joined(all.take(i as int)),
            decreases tokens.len() - i,
        {
            proof {
                reveal_strlit(" ");
                assert(" "@ =~= seq![' ']);
                assert(all.take(i + 1).drop_last() =~= all.take(i as int));
                assert(all.take(i + 1).last() == tokens@[i as int]@);
            }
            if i > 0 {
                text.append(" ");
            }
            text.append(tokens[i].as_str());
            proof {
                if i == 0 {
                    assert(text@ =~= tokens@[0]@);
                }
            }
            i += 1;
        }
        proof {
            assert(all.take(tokens.len() as int) =~= all);
        }
    }
    text
}

/// Appends the attribute `name` with `value` to `text`.
fn push_attribute(text: &mut String, name: &str, value: &str)
    ensures
        final(text)@ == old(text)@ + attribute(name@, value@),
{
    let mut part = String::from_str(name);
    part.append("=\"");
    part.append(value);
    part.append("\"");
    text.append(part.as_str());
}

/// The error attributes of the challenge of `e`.
fn error_fragment(e: &Error) -> (text: String)
    ensures
        text@ == e.error_fragment(),
{
    let (code, description): (&str, &String) = match e {
        Error::MissingAuthentication { .. } => {
            return String::new();
        },
        Error::InvalidRequest { description, .. } => ("invalid_request", description),
        Error::InvalidToken { description, .. } => ("invalid_token", description),
        Error::InsufficientScope { description, .. } => ("insufficient_scope", description),
    };
    let mut text = String::from_str(" ");
    push_attribute(&mut text, "error_code", code);
    text.append(" ");
    push_attribute(&mut text, "error_description", description.as_str());
    text
}

/// The challenge of `e`, as text.
pub fn challenge(e: &Error) -> (text: String)
    ensures
        text@ == e.challenge_text(),
{
    let (realm, scope): (&String, &Option<Vec<String>>) = match e {
        Error::MissingAuthentication { realm, scope, .. } => (realm, scope),
        Error::InvalidRequest { realm, scope, .. } => (realm, scope),
        Error::InvalidToken { realm, scope, .. } => (realm, scope),
        Error::InsufficientScope { realm, scope, .. } => (realm, scope),
    };
    let shown = scopes(scope);
    let fragment = error_fragment(e);
    let mut text = String::from_str("Bearer ");
    push_attribute(&mut text, "realm", realm.as_str());
    text.append(" ");
    push_attribute(&mut text, "scope", shown.as_str());
    text.append(fragment.as_str());
    text
}

/// The value of the `WWW-Authenticate` header for `e`.
///
/// Nothing is escaped, cut or replaced: where a character of the challenge
/// may not stand in a header value, rendering fails.
pub fn render(e: &Error) -> (outcome: Result<HeaderValue, RenderError>)
    ensures
        renders_to(*e, outcome),
{
    let text = challenge(e);
    proof {
        lemma_header_text_octets(text@);
    }
    match header_value_from_str(text.as_str()) {
        Ok(value) => Ok(value),
        Err(cause) => Err(RenderError { cause }),
    }
}

} // verus!

//! What holds of every failure and of every rendering of it.
use crate::challenge::{attribute, joined, renders_to, scope_text, RenderError};
use crate::error::Error;
use crate::header::{header_value_octets, is_header_text, lemma_header_text_concat};
use http::HeaderValue;
use vstd::prelude::*;
use vstd::utf8::{encode_utf8, is_ascii_chars, is_ascii_chars_encode_utf8};

verus! {

/// `part` stands in `text`, unbroken, from the index `at` on.
pub open spec fn occurs_at(part: Seq<char>, text: Seq<char>, at: int) -> bool {
    0 <= at && at + part.len() <= text.len() && text.subrange(at, at + part.len()) == part
}

/// `part` stands somewhere in `text`, unbroken.
pub open spec fn occurs_in(part: Seq<char>, text: Seq<char>) -> bool {
    exists|at: int| occurs_at(part, text, at)
}

/// Every token consists of header characters.
pub open spec fn are_header_texts(tokens: Seq<Seq<char>>) -> bool {
    forall|i: int| 0 <= i < tokens.len() ==> is_header_text(#[trigger] tokens[i])
}

/// Realm, scope tokens and description of `e` consist of header characters.
pub open spec fn has_header_texts(e: Error) -> bool {
    &&& is_header_text(e.realm_text())
    &&& e.scope_tokens() matches Some(tokens) ==> are_header_texts(tokens)
    &&& is_header_text(e.description_text())
}

/// The fixed parts of a challenge consist of header characters.
proof fn lemma_fixed_parts()
    ensures
        is_header_text("Bearer "@),
        is_header_text(" "@),
        is_header_text("=\""@),
        is_header_text("\""@),
        is_header_text("realm"@),
        is_header_text("scope"@),
        is_header_text("error_code"@),
        is_header_text("error_description"@),
        is_header_text("invalid_request"@),
        is_header_text("invalid_token"@),
        is_header_text("insufficient_scope"@),
{
    reveal_strlit("Bearer ");
    reveal_strlit(" ");
    reveal_strlit("=\"");
    reveal_strlit("\"");
    reveal_strlit("realm");
    reveal_strlit("scope");
    reveal_strlit("error_code");
    reveal_strlit("error_description");
    reveal_strlit("invalid_request");
    reveal_strlit("invalid_token");
    reveal_strlit("insufficient_scope");
}

/// An attribute consists of header characters exactly when its name and its
/// value do.
proof fn lemma_attribute_header_text(name: Seq<char>, value: Seq<char>)
    ensures
        is_header_text(attribute(name, value)) <==> is_header_text(name) && is_header_text(value),
{
    lemma_fixed_parts();
    lemma_header_text_concat(name, "=\""@);
    lemma_header_text_concat(name + "=\""@, value);
    lemma_header_text_concat(name + "=\""@ + value, "\""@);
}

/// Joined tokens consist of header characters exactly when every token does.
pub proof fn lemma_joined_header_text(tokens: Seq<Seq<char>>)
    ensures
        is_header_text(joined(tokens)) <==> are_header_texts(tokens),
    decreases tokens.len(),
{
    if tokens.len() >= 2 {
        let front = tokens.drop_last();
        lemma_joined_header_text(front);
        lemma_header_text_concat(joined(front), seq![' ']);
        lemma_header_text_concat(joined(front) + seq![' '], tokens.last());
        if are_header_texts(tokens) {
            assert forall|i: int| 0 <= i < front.len() implies is_header_text(
                #[trigger] front[i],
            ) by {
                assert(front[i] == tokens[i]);
            }
        }
        if are_header_texts(front) && is_header_text(tokens.last()) {
            assert forall|i: int| 0 <= i < tokens.len() implies is_header_text(
                #[trigger] tokens[i],
            ) by {
                if i < front.len() {
                    assert(front[i] == tokens[i]);
                }
            }
        }
    }
}

/// Written out, a challenge is the scheme, `realm` and `scope` with their
/// values in double quotes, and, where the failure has a code, `error_code`
/// and `error_description` with theirs; one space stands between each two.
pub proof fn lemma_challenge_written_out(e: Error)
    ensures
        e.code() is None ==> e.challenge_text() == "Bearer realm=\""@ + e.realm_text()
            + "\" scope=\""@ + scope_text(e.scope_tokens()) + "\""@,
        e.code() matches Some(code) ==> e.challenge_text() == "Bearer realm=\""@ + e.realm_text()
            + "\" scope=\""@ + scope_text(e.scope_tokens()) + "\" error_code=\""@ + code
            + "\" error_description=\""@ + e.description_text() + "\""@,
{
    reveal_strlit("Bearer ");
    reveal_strlit(" ");
    reveal_strlit("=\"");
    reveal_strlit("\"");
    reveal_strlit("realm");
    reveal_strlit("scope");
    reveal_strlit("error_code");
    reveal_strlit("error_description");
    reveal_strlit("Bearer realm=\"");
    reveal_strlit("\" scope=\"");
    reveal_strlit("\" error_code=\"");
    reveal_strlit("\" error_description=\"");
    let realm = e.realm_text();
    let scope = scope_text(e.scope_tokens());
    assert("Bearer "@ + attribute("realm"@, realm) + " "@ + attribute("scope"@, scope)
        =~= "Bearer realm=\""@ + realm + "\" scope=\""@ + scope + "\""@);
    match e.code() {
        None => {
            assert(e.error_fragment() =~= Seq::<char>::empty());
            assert(e.challenge_text() =~= "Bearer realm=\""@ + realm + "\" scope=\""@ + scope
                + "\""@);
        },
        Some(code) => {
            let description = e.description_text();
            assert(scope + "\""@ + e.error_fragment() =~= scope + "\" error_code=\""@ + code
                + "\" error_description=\""@ + description + "\""@);
            assert(e.challenge_text() =~= "Bearer realm=\""@ + realm + "\" scope=\""@ + (scope
                + "\""@ + e.error_fragment()));
            assert(e.challenge_text() =~= "Bearer realm=\""@ + realm + "\" scope=\""@ + scope
                + "\" error_code=\""@ + code + "\" error_description=\""@ + description
                + "\""@);
        },
    }
}

/// A challenge consists of header characters exactly when the realm, the
/// scope tokens and the description that went into it do.
pub proof fn lemma_challenge_header_text(e: Error)
    ensures
        is_header_text(e.challenge_text()) <==> has_header_texts(e),
{
    lemma_fixed_parts();
    let realm = attribute("realm"@, e.realm_text());
    let scope = attribute("scope"@, scope_text(e.scope_tokens()));
    let code = match e.code() {
        Some(code) => code,
        None => Seq::empty(),
    };
    let error_code = attribute("error_code"@, code);
    let description = attribute("error_description"@, e.description_text());
    lemma_attribute_header_text("realm"@, e.realm_text());
    lemma_attribute_header_text("scope"@, scope_text(e.scope_tokens()));
    lemma_attribute_header_text("error_code"@, code);
    lemma_attribute_header_text("error_description"@, e.description_text());
    if let Some(tokens) = e.scope_tokens() {
        lemma_joined_header_text(tokens);
    }
    lemma_header_text_concat(" "@, error_code);
    lemma_header_text_concat(" "@ + error_code, " "@);
    lemma_header_text_concat(" "@ + error_code + " "@, description);
    lemma_header_text_concat("Bearer "@, realm);
    lemma_header_text_concat("Bearer "@ + realm, " "@);
    lemma_header_text_concat("Bearer "@ + realm + " "@, scope);
    lemma_header_text_concat("Bearer "@ + realm + " "@ + scope, e.error_fragment());
}

/// Rendering succeeds exactly when the realm, the scope tokens and the
/// description consist of header characters. So a control character other
/// than horizontal tab in any of them, a line feed for one, makes it fail.
pub proof fn lemma_render_succeeds_iff(e: Error, outcome: Result<HeaderValue, RenderError>)
    requires
        renders_to(e, outcome),
    ensures
        outcome.is_ok() <==> has_header_texts(e),
{
    lemma_challenge_header_text(e);
}

/// A failure without a scope, whose realm and description consist of header
/// characters, renders to its challenge, in which `scope` is shown with
/// nothing between its quotes.
pub proof fn lemma_render_without_scope(e: Error, outcome: Result<HeaderValue, RenderError>)
    requires
        renders_to(e, outcome),
        e.scope_tokens() is None,
        is_header_text(e.realm_text()),
        is_header_text(e.description_text()),
    ensures
        outcome is Ok,
        e.code() is None ==> header_value_octets(outcome->Ok_0) == encode_utf8(
            "Bearer realm=\""@ + e.realm_text() + "\" scope=\"\""@,
        ),
        e.code() matches Some(code) ==> header_value_octets(outcome->Ok_0) == encode_utf8(
            "Bearer realm=\""@ + e.realm_text() + "\" scope=\"\" error_code=\""@ + code
                + "\" error_description=\""@ + e.description_text() + "\""@,
        ),
{
    lemma_challenge_header_text(e);
    lemma_challenge_written_out(e);
    reveal_strlit("\"");
    reveal_strlit("\" scope=\"");
    reveal_strlit("\" scope=\"\"");
    reveal_strlit("\" error_code=\"");
    reveal_strlit("\" scope=\"\" error_code=\"");
    let lead = "Bearer realm=\""@ + e.realm_text();
    let none = Seq::<char>::empty();
    assert(lead + "\" scope=\""@ + none + "\""@ =~= lead + "\" scope=\"\""@);
    assert(lead + "\" scope=\""@ + none + "\" error_code=\""@ =~= lead
        + "\" scope=\"\" error_code=\""@);
}

/// Where the challenge of a rendered failure is ASCII, the header value
/// holds one octet for each character of it, in order.
pub proof fn lemma_render_ascii(e: Error, outcome: Result<HeaderValue, RenderError>)
    requires
        renders_to(e, outcome),
        outcome is Ok,
        is_ascii_chars(e.challenge_text()),
    ensures
        header_value_octets(outcome->Ok_0).len() == e.challenge_text().len(),
        forall|i: int|
            0 <= i < e.challenge_text().len() ==> header_value_octets(outcome->Ok_0)[i]
                == #[trigger] e.challenge_text()[i] as u8,
{
    is_ascii_chars_encode_utf8(e.challenge_text());
}

/// Two renderings of one failure end alike, and where they succeed they hold
/// the same octets.
pub proof fn lemma_render_deterministic(
    e: Error,
    first: Result<HeaderValue, RenderError>,
    second: Result<HeaderValue, RenderError>,
)
    requires
        renders_to(e, first),
        renders_to(e, second),
    ensures
        first.is_ok() == second.is_ok(),
        first.is_ok() ==> header_value_octets(first->Ok_0) == header_value_octets(second->Ok_0),
{
}

/// Every challenge shows a `scope` attribute, which holds the joined tokens:
/// nothing where the scope is absent or has no token.
pub proof fn lemma_scope_attribute_shown(e: Error)
    ensures
        occurs_in(attribute("scope"@, scope_text(e.scope_tokens())), e.challenge_text()),
        e.scope_tokens() is None || e.scope_tokens() == Some(Seq::<Seq<char>>::empty())
            ==> scope_text(e.scope_tokens()) == Seq::<char>::empty(),
{
    let head = "Bearer "@ + attribute("realm"@, e.realm_text()) + " "@;
    let part = attribute("scope"@, scope_text(e.scope_tokens()));
    let text = e.challenge_text();
    assert(text =~= head + part + e.error_fragment());
    let at: int = head.len() as int;
    assert(text.subrange(at, at + part.len()) =~= part);
    assert(occurs_at(part, text, at));
}

/// Three tokens are joined with a space after the first and after the second.
pub proof fn lemma_joined_three(a: Seq<char>, b: Seq<char>, c: Seq<char>)
    ensures
        joined(seq![a, b, c]) == a + seq![' '] + b + seq![' '] + c,
{
    let all = seq![a, b, c];
    let front = all.drop_last();
    assert(front =~= seq![a, b]);
    assert(front.drop_last() =~= seq![a]);
    assert(joined(front.drop_last()) == a);
    assert(joined(front) == a + seq![' '] + b);
}

/// The challenge of a missing credential ends with its `scope` attribute:
/// no error attribute follows.
pub proof fn lemma_missing_authentication_ends_with_scope(e: Error)
    requires
        e is MissingAuthentication,
    ensures
        e.challenge_text() == "Bearer "@ + attribute("realm"@, e.realm_text()) + " "@ + attribute(
            "scope"@,
            scope_text(e.scope_tokens()),
        ),
{
    assert(e.error_fragment() =~= Seq::<char>::empty());
    let head = "Bearer "@ + attribute("realm"@, e.realm_text()) + " "@ + attribute(
        "scope"@,
        scope_text(e.scope_tokens()),
    );
    assert(head + Seq::<char>::empty() =~= head);
}

/// The challenge of every other failure shows the attributes `error_code`,
/// with the code of the failure, and `error_description`, with its
/// description.
pub proof fn lemma_error_attributes_shown(e: Error)
    requires
        !(e is MissingAuthentication),
    ensures
        e is InvalidRequest ==> e.code() == Some("invalid_request"@),
        e is InvalidToken ==> e.code() == Some("invalid_token"@),
        e is InsufficientScope ==> e.code() == Some("insufficient_scope"@),
        occurs_in(attribute("error_code"@, e.code()->Some_0), e.challenge_text()),
        occurs_in(attribute("error_description"@, e.description_text()), e.challenge_text()),
{
    let head = "Bearer "@ + attribute("realm"@, e.realm_text()) + " "@ + attribute(
        "scope"@,
        scope_text(e.scope_tokens()),
    );
    let code = attribute("error_code"@, e.code()->Some_0);
    let description = attribute("error_description"@, e.description_text());
    let text = e.challenge_text();
    assert(text =~= head + " "@ + code + " "@ + description);
    let at: int = (head.len() + " "@.len()) as int;
    assert(text.subrange(at, at + code.len()) =~= code);
    assert(occurs_at(code, text, at));
    let next: int = at + code.len() + " "@.len();
    assert(text.subrange(next, next + description.len()) =~= description);
    assert(occurs_at(description, text, next));
}

/// Around a `mark` that is no character of `part`, `part` stands only where
/// it stands before the mark or after it.
proof fn lemma_occurs_around(part: Seq<char>, before: Seq<char>, mark: char, after: Seq<char>)
    requires
        forall|i: int| 0 <= i < part.len() ==> part[i] != mark,
    ensures
        occurs_in(part, before + seq![mark] + after) <==> occurs_in(part, before) || occurs_in(
            part,
            after,
        ),
{
    let text = before + seq![mark] + after;
    let n = part.len() as int;
    let m = before.len() as int;
    if occurs_in(part, text) {
        let at = choose|at: int| occurs_at(part, text, at);
        if at + n <= m {
            assert(before.subrange(at, at + n) =~= text.subrange(at, at + n));
            assert(occurs_at(part, before, at));
        } else if at > m {
            assert(after.subrange(at - m - 1, at - m - 1 + n) =~= text.subrange(at, at + n));
            assert(occurs_at(part, after, at - m - 1));
        } else {
            assert(text.subrange(at, at + n)[m - at] == text[m]);
            assert(part[m - at] != mark);
        }
    }
    if occurs_in(part, before) {
        let at = choose|at: int| occurs_at(part, before, at);
        assert(text.subrange(at, at + n) =~= before.subrange(at, at + n));
        assert(occurs_at(part, text, at));
    }
    if occurs_in(part, after) {
        let at = choose|at: int| occurs_at(part, after, at);
        assert(text.subrange(m + 1 + at, m + 1 + at + n) =~= after.subrange(at, at + n));
        assert(occurs_at(part, text, m + 1 + at));
    }
}

/// A part with a character that `text` lacks stands nowhere in `text`.
proof fn lemma_occurs_nowhere(part: Seq<char>, text: Seq<char>, k: int)
    requires
        0 <= k < part.len(),
        forall|i: int| 0 <= i < text.len() ==> text[i] != part[k],
    ensures
        !occurs_in(part, text),
{
    if occurs_in(part, text) {
        let at = choose|at: int| occurs_at(part, text, at);
        assert(text.subrange(at, at + part.len())[k] == text[at + k]);
    }
}

/// In the challenge of a missing credential, a part without a double quote
/// and with an underscore stands only where the realm or the joined scope
/// tokens hold it.
proof fn lemma_missing_authentication_part(e: Error, part: Seq<char>, k: int)
    requires
        e is MissingAuthentication,
        forall|i: int| 0 <= i < part.len() ==> part[i] != '"',
        0 <= k < part.len(),
        part[k] == '_',
    ensures
        occurs_in(part, e.challenge_text()) <==> occurs_in(part, e.realm_text()) || occurs_in(
            part,
            scope_text(e.scope_tokens()),
        ),
{
    reveal_strlit("Bearer ");
    reveal_strlit(" ");
    reveal_strlit("=\"");
    reveal_strlit("\"");
    reveal_strlit("realm");
    reveal_strlit("scope");
    let realm = e.realm_text();
    let scope = scope_text(e.scope_tokens());
    let lead = "Bearer "@ + "realm"@ + seq!['='];
    let link = " "@ + "scope"@ + seq!['='];
    let none = Seq::<char>::empty();
    let fourth = scope + seq!['"'] + none;
    let third = link + seq!['"'] + fourth;
    let second = realm + seq!['"'] + third;
    assert(e.error_fragment() =~= none);
    assert("=\""@ =~= seq!['='] + seq!['"']);
    assert("\""@ =~= seq!['"']);
    assert(e.challenge_text() =~= lead + seq!['"'] + second);
    lemma_occurs_around(part, lead, '"', second);
    lemma_occurs_around(part, realm, '"', third);
    lemma_occurs_around(part, link, '"', fourth);
    lemma_occurs_around(part, scope, '"', none);
    lemma_occurs_nowhere(part, lead, k);
    lemma_occurs_nowhere(part, link, k);
    lemma_occurs_nowhere(part, none, k);
}

/// The challenge of a missing credential shows `error_code=` and
/// `error_description=` only where the realm or the joined scope tokens
/// hold these words themselves.
pub proof fn lemma_missing_authentication_shows_no_error(e: Error)
    requires
        e is MissingAuthentication,
    ensures
        occurs_in("error_code="@, e.challenge_text()) <==> occurs_in(
            "error_code="@,
            e.realm_text(),
        ) || occurs_in("error_code="@, scope_text(e.scope_tokens())),
        occurs_in("error_description="@, e.challenge_text()) <==> occurs_in(
            "error_description="@,
            e.realm_text(),
        ) || occurs_in("error_description="@, scope_text(e.scope_tokens())),
{
    reveal_strlit("error_code=");
    reveal_strlit("error_description=");
    lemma_missing_authentication_part(e, "error_code="@, 5);
    lemma_missing_authentication_part(e, "error_description="@, 5);
}

} // verus!

//! The credential check for mutating routes.
//!
//! A mutating request must present an `Authorization` header holding the
//! scheme `Bearer`, one space, and the configured secret, exactly. The check
//! fails closed: a missing header, a header without a space, an unexpected
//! scheme and a wrong token are all refused, with the same refusal status.

use vstd::prelude::*;

verus! {

/// Why a presented credential was refused. Every variant is answered with
/// the same refusal status, so a caller learns nothing about which check
/// failed from the status alone.
#[derive(Clone, Copy, Debug, PartialEq, Eq, Structural)]
pub enum AuthError {
    /// No `Authorization` header was presented.
    MissingHeader,
    /// The header has no space, so it cannot be a scheme and a token.
    MalformedHeader,
    /// The scheme before the first space is not `Bearer`.
    UnexpectedScheme,
    /// The token after the first space is not the configured secret.
    InvalidToken,
}

impl AuthError {
    /// The response message for this refusal.
    pub fn message(&self) -> (r: &'static str)
        ensures
            r@ == match *self {
                AuthError::MissingHeader => "Unauthenticated"@,
                AuthError::MalformedHeader => "Malformed authorisation header"@,
                AuthError::UnexpectedScheme => "Unexpected authorisation scheme"@,
                AuthError::InvalidToken => "Unauthorised"@,
            },
    {
        match self {
            AuthError::MissingHeader => "Unauthenticated",
            AuthError::MalformedHeader => "Malformed authorisation header",
            AuthError::UnexpectedScheme => "Unexpected authorisation scheme",
            AuthError::InvalidToken => "Unauthorised",
        }
    }
}

/// The one header value that authorizes against a secret: the scheme, one
/// space, the secret.
pub open spec fn bearer_header(secret: Seq<char>) -> Seq<char> {
    "Bearer "@ + secret
}

/// `j` is the position of the first space of `s`.
pub open spec fn is_first_space(s: Seq<char>, j: int) -> bool {
    &&& 0 <= j < s.len()
    &&& s[j] == ' '
    &&& forall|k: int| 0 <= k < j ==> s[k] != ' '
}

/// Whether `s` holds a space at all.
pub open spec fn has_space(s: Seq<char>) -> bool {
    exists|j: int| is_first_space(s, j)
}

/// The position of the first space of `s`.
pub open spec fn first_space(s: Seq<char>) -> int {
    choose|j: int| is_first_space(s, j)
}

/// What stands before the first space: the scheme of the header.
pub open spec fn scheme_of(s: Seq<char>) -> Seq<char> {
    s.take(first_space(s))
}

/// What stands after the first space: the token of the header.
pub open spec fn token_of(s: Seq<char>) -> Seq<char> {
    s.skip(first_space(s) + 1)
}

/// A presented header as a plain value: the characters, or nothing.
pub open spec fn header_view(header: Option<&str>) -> Option<Seq<char>> {
    match header {
        Some(h) => Some(h@),
        None => None,
    }
}

/// The decision the credential check makes, as a value.
pub open spec fn auth_decision(header: Option<Seq<char>>, secret: Seq<char>) -> Result<
    (),
    AuthError,
> {
    match header {
        None => Err(AuthError::MissingHeader),
        Some(h) => if !has_space(h) {
            Err(AuthError::MalformedHeader)
        } else if scheme_of(h) != "Bearer"@ {
            Err(AuthError::UnexpectedScheme)
        } else if token_of(h) != secret {
            Err(AuthError::InvalidToken)
        } else {
            Ok(())
        },
    }
}

/// The first space is the first space: its position is unique.
proof fn lemma_first_space_unique(s: Seq<char>, j1: int, j2: int)
    requires
        is_first_space(s, j1),
        is_first_space(s, j2),
    ensures
        j1 == j2,
{
    if j1 < j2 {
        assert(s[j1] != ' ');
    }
    if j2 < j1 {
        assert(s[j2] != ' ');
    }
}

/// A header splits into the scheme `Bearer` and the secret as its token
/// exactly when it is the scheme, one space, and the secret, whole.
pub proof fn lemma_bearer_split(h: Seq<char>, secret: Seq<char>)
    ensures
        (has_space(h) && scheme_of(h) == "Bearer"@ && token_of(h) == secret) <==> h
            == bearer_header(secret),
{
    reveal_strlit("Bearer");
    reveal_strlit("Bearer ");
    assert("Bearer "@ =~= "Bearer"@ + seq![' ']);
    if has_space(h) && scheme_of(h) == "Bearer"@ && token_of(h) == secret {
        let j = first_space(h);
        assert(is_first_space(h, j));
        assert(h.take(j).len() == j);
        assert(j == 6);
        assert(h =~= h.take(j) + seq![h[j]] + h.skip(j + 1));
        assert(h =~= bearer_header(secret));
    }
    if h == bearer_header(secret) {
        assert(h.len() == 7 + secret.len());
        assert(h[6] == ' ');
        assert forall|k: int| 0 <= k < 6 implies h[k] != ' ' by {
            assert(h[k] == "Bearer"@[k]);
        }
        assert(is_first_space(h, 6));
        let j = first_space(h);
        assert(is_first_space(h, j));
        lemma_first_space_unique(h, j, 6);
        assert(scheme_of(h) =~= "Bearer"@);
        assert(token_of(h) =~= secret);
    }
}

/// Whether two strings hold the same characters.
fn str_eq(a: &str, b: &str) -> (r: bool)
    ensures
        r == (a@ == b@),
{
    let x: String = a.to_owned();
    let y: String = b.to_owned();
    x == y
}

/// Checks a presented `Authorization` header against the configured secret.
/// It succeeds exactly on the scheme `Bearer`, one space, and the secret;
/// every other header is refused, with the reason as the error.
pub fn check_authorisation(header: Option<&str>, secret: &str) -> (r: Result<(), AuthError>)
    ensures
        r == auth_decision(header_view(header), secret@),
        r is Ok <==> (header matches Some(h) && h@ == bearer_header(secret@)),
{
    let h = match header {
        Some(h) => h,
        None => {
            return Err(AuthError::MissingHeader);
        },
    };
    let len = h.unicode_len();

    let mut j: usize = 0;
    while j < len && h.get_char(j) != ' '
        invariant
            len == h@.len(),
            j <= len,
            forall|k: int| 0 <= k < j ==> h@[k] != ' ',
        decreases len - j,
    {
        j = j + 1;
    }

    if j == len {
        proof {
            assert forall|i: int| !is_first_space(h@, i) by {
                if 0 <= i < h@.len() {
                    assert(h@[i] != ' ');
                }
            }
            lemma_bearer_split(h@, secret@);
        }
        return Err(AuthError::MalformedHeader);
    }

    proof {
        assert(is_first_space(h@, j as int));
        lemma_first_space_unique(h@, first_space(h@), j as int);
        assert(first_space(h@) == j as int);
        lemma_bearer_split(h@, secret@);
    }

    let scheme = h.substring_char(0, j);
    let token = h.substring_char(j + 1, len);
    proof {
        assert(scheme@ == scheme_of(h@));
        assert(token@ == token_of(h@));
    }

    if !str_eq(scheme, "Bearer") {
        return Err(AuthError::UnexpectedScheme);
    }
    if !str_eq(token, secret) {
        return Err(AuthError::InvalidToken);
    }
    Ok(())
}

} // verus!

//! The bearer-credential gate.
//!
//! Every mutating request must pass [`AuthGate::authorize`] before any side
//! effect happens. It holds the one expected token, found once at
//! startup; when no token is configured it fails closed rather than falling
//! back to a default. Header values are handled as plain bytes, so the caller
//! hands over the raw value of the credential header, if one was present.

use vstd::prelude::*;

verus! {

/// Why a request's credential was rejected.
#[derive(Clone, Copy, Debug, PartialEq, Eq, Structural)]
pub enum AuthError {
    /// The credential header was absent, or did not use the bearer scheme.
    MissingCredential,
    /// A bearer token was presented but did not match the configured one.
    InvalidCredential,
    /// No expected token is configured; authorization fails closed.
    ConfigurationError,
}

/// The scheme prefix every accepted credential header must carry:
/// the seven bytes of `"Bearer "`.
pub open spec fn scheme_prefix() -> Seq<u8> {
    seq![66u8, 101u8, 97u8, 114u8, 101u8, 114u8, 32u8]
}

/// Whether a header value begins with the bearer scheme prefix.
pub open spec fn has_scheme_prefix(h: Seq<u8>) -> bool {
    h.len() >= 7 && h.subrange(0, 7) == scheme_prefix()
}

/// What authorization decides, for every configuration and header value:
/// fail closed without a configured token; reject an absent header or a
/// foreign scheme as a missing credential; accept exactly the matching token.
pub open spec fn authorize_spec(expected: Option<Seq<u8>>, header: Option<Seq<u8>>) -> Result<
    (),
    AuthError,
> {
    match expected {
        None => Err(AuthError::ConfigurationError),
        Some(token) => match header {
            None => Err(AuthError::MissingCredential),
            Some(h) => if !has_scheme_prefix(h) {
                Err(AuthError::MissingCredential)
            } else if h.skip(7) == token {
                Ok(())
            } else {
                Err(AuthError::InvalidCredential)
            },
        },
    }
}

/// The view of an optional raw header value.
pub open spec fn opt_bytes_view(header: Option<&[u8]>) -> Option<Seq<u8>> {
    match header {
        Some(h) => Some(h@),
        None => None,
    }
}

/// The one well-formed credential header for a token: the scheme prefix
/// followed by the token itself, exactly.
pub open spec fn bearer_header_for(token: Seq<u8>) -> Seq<u8> {
    scheme_prefix() + token
}

/// Validates bearer credentials against the one expected token.
pub struct AuthGate {
    expected: Option<Vec<u8>>,
}

impl AuthGate {
    /// The configured token, if any.
    pub closed spec fn expected_token(&self) -> Option<Seq<u8>> {
        match self.expected {
            Some(token) => Some(token@),
            None => None,
        }
    }

    /// Builds a gate around the token found at startup; `None` records that
    /// no token could be determined, and every request will then be refused.
    pub fn new(expected: Option<Vec<u8>>) -> (gate: AuthGate)
        ensures
            gate.expected_token() == opt_vec_view(expected),
    {
        AuthGate { expected }
    }

    /// Decides one request, given the raw value of its credential header.
    /// Pure validation: no side effects, and the decision is exactly
    /// [`authorize_spec`] of the configured token and the header.
    pub fn authorize(&self, header: Option<&[u8]>) -> (r: Result<(), AuthError>)
        ensures
            r == authorize_spec(self.expected_token(), opt_bytes_view(header)),
    {
        match &self.expected {
            None => Err(AuthError::ConfigurationError),
            Some(token) => match header {
                None => Err(AuthError::MissingCredential),
                Some(h) => {
                    if !starts_with_scheme(h) {
                        Err(AuthError::MissingCredential)
                    } else {
                        let (_, presented) = h.split_at(7);
                        proof {
                            assert(presented@ =~= h@.skip(7));
                        }
                        if bytes_equal_constant_time(presented, token.as_slice()) {
                            Ok(())
                        } else {
                            Err(AuthError::InvalidCredential)
                        }
                    }
                },
            },
        }
    }
}

/// The view of an optional owned byte string.
pub open spec fn opt_vec_view(v: Option<Vec<u8>>) -> Option<Seq<u8>> {
    match v {
        Some(b) => Some(b@),
        None => None,
    }
}

/// Whether a raw header value begins with the seven bytes of `"Bearer "`.
fn starts_with_scheme(h: &[u8]) -> (r: bool)
    ensures
        r == has_scheme_prefix(h@),
{
    if h.len() < 7 {
        return false;
    }
    let r = h[0] == 66 && h[1] == 101 && h[2] == 97 && h[3] == 114 && h[4] == 101 && h[5] == 114
        && h[6] == 32;
    proof {
        let p = h@.subrange(0, 7);
        assert(p[0] == h@[0] && p[1] == h@[1] && p[2] == h@[2] && p[3] == h@[3] && p[4] == h@[4]
            && p[5] == h@[5] && p[6] == h@[6]);
        if r {
            assert(p =~= scheme_prefix());
        }
    }
    r
}

/// Whether two byte strings hold the same bytes. The comparison walks both
/// inputs in full and accumulates differences instead of returning at the
/// first mismatch, so its structure does not depend on where a wrong token
/// diverges from the expected one.
fn bytes_equal_constant_time(a: &[u8], b: &[u8]) -> (r: bool)
    ensures
        r == (a@ == b@),
{
    if a.len() != b.len() {
        return false;
    }
    let mut acc: u8 = 0;
    let mut i: usize = 0;
    while i < a.len()
        invariant
            a@.len() == b@.len(),
            i <= a@.len(),
            (acc == 0) <==> (forall|j: int| 0 <= j < i ==> a@[j] == b@[j]),
        decreases a@.len() - i,
    {
        let ai = a[i];
        let bi = b[i];
        let x = ai ^ bi;
        proof {
            assert((ai ^ bi == 0) <==> (ai == bi)) by (bit_vector);
        }
        let next = acc | x;
        proof {
            assert((acc | x == 0) <==> (acc == 0 && x == 0)) by (bit_vector);
            if acc == 0 && x == 0 {
                assert(forall|j: int| 0 <= j < i + 1 ==> a@[j] == b@[j]);
            }
        }
        acc = next;
        i = i + 1;
    }
    if acc == 0 {
        proof {
            assert(a@ =~= b@);
        }
        true
    } else {
        false
    }
}

/// Law: with a configured token, authorization accepts exactly the one
/// well-formed bearer header that carries that token; an absent header or a
/// foreign scheme is reported as a missing credential, a well-formed header
/// with any other token as an invalid one, and an unconfigured gate refuses
/// everything. This holds for every token, whatever its length.
pub proof fn lemma_authorize_classification(expected: Option<Seq<u8>>, header: Option<Seq<u8>>)
    ensures
        authorize_spec(expected, header) is Ok <==> (expected is Some && header is Some && header
            ->Some_0 == bearer_header_for(expected->Some_0)),
        expected is None ==> authorize_spec(expected, header) == Err::<(), AuthError>(
            AuthError::ConfigurationError,
        ),
        expected is Some && (header is None || !has_scheme_prefix(header->Some_0)) ==> authorize_spec(
            expected,
            header,
        ) == Err::<(), AuthError>(AuthError::MissingCredential),
        expected is Some && header is Some && has_scheme_prefix(header->Some_0) && header
            ->Some_0.skip(7) != expected->Some_0 ==> authorize_spec(expected, header) == Err::<
            (),
            AuthError,
        >(AuthError::InvalidCredential),
{
    match (expected, header) {
        (Some(token), Some(h)) => {
            if has_scheme_prefix(h) && h.skip(7) == token {
                assert(h =~= bearer_header_for(token)) by {
                    assert forall|i: int|
                        0 <= i < h.len() implies h[i] == bearer_header_for(token)[i] by {
                        if i < 7 {
                            assert(h.subrange(0, 7)[i] == h[i]);
                        } else {
                            assert(h.skip(7)[i - 7] == h[i]);
                        }
                    }
                }
            }
            if h == bearer_header_for(token) {
                assert(h.subrange(0, 7) =~= scheme_prefix());
                assert(h.skip(7) =~= token);
            }
        },
        _ => {},
    }
}

/// The HTTP status that reports an authorization failure: a missing or wrong
/// credential is unauthorized, an unconfigured gate is a server-side fault.
pub open spec fn auth_error_status(e: AuthError) -> u16 {
    match e {
        AuthError::MissingCredential => 401,
        AuthError::InvalidCredential => 401,
        AuthError::ConfigurationError => 500,
    }
}

impl AuthError {
    /// The HTTP status code that reports this error to the caller.
    pub fn http_status(&self) -> (s: u16)
        ensures
            s == auth_error_status(*self),
    {
        match self {
            AuthError::MissingCredential => 401,
            AuthError::InvalidCredential => 401,
            AuthError::ConfigurationError => 500,
        }
    }
}

} // verus!

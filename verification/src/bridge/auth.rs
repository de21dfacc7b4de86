//! Bearer-token authentication.
//!
//! Without a token every client is accepted, and the server listens on the
//! loopback address only. With one, a client presents it in the
//! `Authorization` header of the handshake or in an `auth.hello` request.
use vstd::prelude::*;

use crate::text::{
    is_white, strip_prefix, trim, trim_keeps_tight_text, trim_spec, trim_takes_away_the_ends,
};

verus! {

/// The token that clients must present, if any.
#[derive(Debug, Clone)]
pub struct AuthConfig {
    pub bearer_token: Option<String>,
}

/// The `Authorization` header that carries a token.
pub open spec fn bearer_header(token: Seq<char>) -> Seq<char> {
    "Bearer "@ + token
}

/// Whether a header is let through: always without a token, else where the
/// header, trimmed, is the one that carries the token.
pub open spec fn header_accepted(token: Option<Seq<char>>, header: Option<Seq<char>>) -> bool {
    match token {
        None => true,
        Some(t) => match header {
            None => false,
            Some(h) => trim_spec(h) == bearer_header(t),
        },
    }
}

impl Default for AuthConfig {
    /// No token.
    fn default() -> (r: Self)
        ensures
            r.token() is None,
    {
        AuthConfig { bearer_token: None }
    }
}

impl AuthConfig {
    /// The text of the token.
    pub open spec fn token(self) -> Option<Seq<char>> {
        match self.bearer_token {
            Some(t) => Some(t@),
            None => None,
        }
    }

    /// Name of the environment variable that holds the token.
    pub const ENV_TOKEN: &'static str = "HYPEHOUSE_BRIDGE_TOKEN";

    /// The configuration for a value of the environment variable. An empty
    /// value counts as none.
    pub fn from_env(value: Option<String>) -> (r: Self)
        ensures
            r.token() == (match value {
                Some(v) => if v@.len() == 0 {
                    None
                } else {
                    Some(v@)
                },
                None => None,
            }),
    {
        match value {
            Some(v) => {
                if v.as_str().is_empty() {
                    AuthConfig { bearer_token: None }
                } else {
                    AuthConfig { bearer_token: Some(v) }
                }
            },
            None => AuthConfig { bearer_token: None },
        }
    }

    /// Require that token.
    pub fn with_token(token: &str) -> (r: Self)
        ensures
            r.token() == Some(token@),
    {
        AuthConfig { bearer_token: Some(token.to_owned()) }
    }

    /// Whether clients must present a token.
    pub fn requires_auth(&self) -> (r: bool)
        ensures
            r == (self.token() is Some),
    {
        self.bearer_token.is_some()
    }

    /// Whether the value of an `Authorization` header is let through.
    pub fn check_header(&self, header_value: Option<&str>) -> (r: bool)
        ensures
            r == header_accepted(
                self.token(),
                match header_value {
                    Some(h) => Some(h@),
                    None => None,
                },
            ),
    {
        match &self.bearer_token {
            None => true,
            Some(expected) => match header_value {
                None => false,
                Some(raw) => {
                    let trimmed: &str = trim(raw);
                    match strip_prefix(trimmed, "Bearer ") {
                        None => {
                            proof {
                                assert("Bearer "@.is_prefix_of(bearer_header(expected@)));
                            }
                            false
                        },
                        Some(rest) => {
                            proof {
                                assert(trimmed@ =~= bearer_header(rest@));
                                same_bytes_same_text(rest@, expected@);
                                assert(bearer_header(rest@) == bearer_header(expected@) ==> rest@
                                    =~= expected@) by {
                                    assert(bearer_header(rest@).skip("Bearer "@.len() as int)
                                        =~= rest@);
                                    assert(bearer_header(expected@).skip("Bearer "@.len() as int)
                                        =~= expected@);
                                }
                            }
                            constant_time_eq(rest.as_bytes(), expected.as_str().as_bytes())
                        },
                    }
                },
            },
        }
    }
}

/// Texts with equal encodings are equal.
proof fn same_bytes_same_text(a: Seq<char>, b: Seq<char>)
    ensures
        (vstd::utf8::encode_utf8(a) == vstd::utf8::encode_utf8(b)) == (a == b),
{
    vstd::utf8::encode_utf8_decode_utf8(a);
    vstd::utf8::encode_utf8_decode_utf8(b);
}

/// Compare two byte strings. All bytes are looked at, wherever the first
/// difference lies.
pub fn constant_time_eq(a: &[u8], b: &[u8]) -> (r: bool)
    ensures
        r == (a@ == b@),
{
    if a.len() != b.len() {
        return false;
    }
    let mut acc: u8 = 0;
    let mut i: usize = 0;
    while i < a.len()
        invariant
            i <= a@.len(),
            a@.len() == b@.len(),
            (acc == 0) <==> (forall|j: int| 0 <= j < i ==> #[trigger] a@[j] == b@[j]),
        decreases a@.len() - i,
    {
        let x: u8 = a[i];
        let y: u8 = b[i];
        let ghost before = acc;
        acc = acc | (x ^ y);
        proof {
            assert((before | (x ^ y)) == 0 <==> (before == 0 && x == y)) by (bit_vector);
            assert(a@[i as int] == x && b@[i as int] == y);
        }
        i += 1;
    }
    proof {
        assert((acc == 0) <==> a@ =~= b@);
    }
    acc == 0
}

/// A header that carries the token is let through, and among the headers
/// that carry a token no other is: for tokens that do not end in white
/// space, which a header cannot carry.
pub proof fn only_the_token_is_accepted(token: Seq<char>, presented: Seq<char>)
    requires
        presented.len() > 0,
        !is_white(presented.last()),
    ensures
        header_accepted(Some(token), Some(bearer_header(presented))) <==> presented == token,
{
    reveal_strlit("Bearer ");
    let h = bearer_header(presented);
    assert(h.last() == presented.last());
    assert(h[0] == 'B');
    trim_keeps_tight_text(h);
    assert(h.skip(7) =~= presented);
    assert(bearer_header(token).skip(7) =~= token);
}

/// Where a token is asked for, a client without a header is not let through;
/// where none is, every client is.
pub proof fn tokens_must_be_shown(token: Seq<char>, header: Option<Seq<char>>)
    ensures
        header_accepted(None, header),
        !header_accepted(Some(token), None),
{
}

/// A header is let through where it is the word for the scheme and the token
/// behind it, with any white space around them, and in no other case.
pub proof fn headers_carry_scheme_and_token(
    token: Seq<char>,
    before: Seq<char>,
    presented: Seq<char>,
    behind: Seq<char>,
    header: Seq<char>,
)
    requires
        forall|i: int| 0 <= i < before.len() ==> is_white(#[trigger] before[i]),
        forall|i: int| 0 <= i < behind.len() ==> is_white(#[trigger] behind[i]),
        presented.len() > 0,
        !is_white(presented.last()),
    ensures
        header_accepted(Some(token), Some(before + ("Bearer "@ + presented) + behind))
            <==> presented == token,
        header_accepted(Some(token), Some(header)) ==> trim_spec(header) == "Bearer "@ + token,
{
    reveal_strlit("Bearer ");
    let h = "Bearer "@ + presented;
    assert(h[0] == 'B');
    assert(h.last() == presented.last());
    trim_takes_away_the_ends(before, h, behind);
    assert(h.skip(7) =~= presented);
    assert(("Bearer "@ + token).skip(7) =~= token);
}

/// The token of a configuration is the text that was configured.
pub proof fn tokens_are_as_configured(config: AuthConfig)
    ensures
        config.bearer_token is None <==> config.token() is None,
        config.bearer_token matches Some(t) ==> config.token() == Some(t@),
{
}

} // verus!

//! Tokens that a device must show.

use vstd::prelude::*;
use vstd::utf8::*;

verus! {

/// How many characters a token has.
pub const TOKEN_LENGTH: usize = 32;

/// A token. It is never shown when a value is inspected.
#[derive(Clone, PartialEq, Eq, Hash)]
pub struct AuthToken {
    token: String,
}

/// Whether a character is a digit or a letter of the Latin alphabet.
pub open spec fn is_alphanumeric(c: char) -> bool {
    '0' <= c <= '9' || 'a' <= c <= 'z' || 'A' <= c <= 'Z'
}

/// Whether a text is one that may be a new token.
pub open spec fn is_fresh(s: Seq<char>) -> bool {
    s.len() == TOKEN_LENGTH && forall|i: int| 0 <= i < s.len() ==> is_alphanumeric(#[trigger] s[i])
}

/// A number below 62, as `rand::Rng::random_range` picks it with the generator of `rand::rng`. Which
/// one is left to chance.
#[verifier::external_body]
fn random_index() -> (i: u8)
    ensures
        i < 62,
{
    rand::Rng::random_range(&mut rand::rng(), 0..62)
}

/// The digit or letter with a number: digits first, then lower case, then upper case.
pub open spec fn character(i: u8) -> char {
    if i < 10 {
        ('0' as int + i) as char
    } else if i < 36 {
        ('a' as int + i - 10) as char
    } else {
        ('A' as int + i - 36) as char
    }
}

/// The digit or letter with a number.
pub fn token_character(i: u8) -> (c: char)
    requires
        i < 62,
    ensures
        c == character(i),
        is_alphanumeric(c),
{
    if i < 10 {
        (48u8 + i) as char
    } else if i < 36 {
        (97u8 + (i - 10)) as char
    } else {
        (65u8 + (i - 36)) as char
    }
}

/// No two numbers have one character.
pub proof fn characters_are_distinct(i: u8, j: u8)
    requires
        i < 62,
        j < 62,
        i != j,
    ensures
        character(i) != character(j),
{
}

impl AuthToken {
    /// The text of the token.
    pub closed spec fn text(&self) -> Seq<char> {
        self.token@
    }

    /// A new token that chance has made.
    pub fn generate() -> (r: AuthToken)
        ensures
            is_fresh(r.text()),
    {
        let mut token = String::new();
        let mut n: usize = 0;
        while n < TOKEN_LENGTH
            invariant
                n <= TOKEN_LENGTH,
                token@.len() == n,
                forall|i: int| 0 <= i < n ==> is_alphanumeric(#[trigger] token@[i]),
            decreases TOKEN_LENGTH - n,
        {
            let i: u8 = random_index();
            token.push(token_character(i));
            n = n + 1;
        }
        AuthToken { token }
    }

    /// The token with a text.
    pub fn from_string(s: String) -> (r: AuthToken)
        ensures
            r.text() == s@,
    {
        AuthToken { token: s }
    }

    /// The text of the token.
    pub fn as_str(&self) -> (r: &str)
        ensures
            r@ == self.text(),
    {
        self.token.as_str()
    }

    /// The text of the token.
    pub fn to_text(&self) -> (r: String)
        ensures
            r@ == self.text(),
    {
        self.token.clone()
    }

    /// The same token once more.
    pub fn copy(&self) -> (r: AuthToken)
        ensures
            r.text() == self.text(),
    {
        AuthToken { token: self.token.clone() }
    }

    /// What is shown in place of a token when a value is inspected.
    pub fn debug_text(&self) -> (r: String)
        ensures
            r@ == "AuthToken(***)"@,
    {
        "AuthToken(***)".to_owned()
    }

    /// Whether the token is the expected one. All bytes are looked at, wherever they first differ.
    pub fn validate(&self, expected: &AuthToken) -> (r: bool)
        ensures
            r == (self.text() == expected.text()),
    {
        broadcast use vstd::utf8::encode_utf8_decode_utf8;

        let a = self.token.as_str().as_bytes();
        let b = expected.token.as_str().as_bytes();
        proof {
            assert(decode_utf8(encode_utf8(self.text())) == self.text());
            assert(decode_utf8(encode_utf8(expected.text())) == expected.text());
        }
        if a.len() != b.len() {
            return false;
        }
        let mut all: u8 = 0;
        let mut i: usize = 0;
        while i < a.len()
            invariant
                a@.len() == b@.len(),
                i <= a@.len(),
                (all == 0) == (forall|j: int| 0 <= j < i ==> #[trigger] a@[j] == b@[j]),
            decreases a@.len() - i,
        {
            let x: u8 = a[i];
            let y: u8 = b[i];
            proof {
                differences_gather(all, x, y);
            }
            all = all | (x ^ y);
            i = i + 1;
        }
        assert(all == 0 ==> a@ =~= b@);
        all == 0
    }
}

/// A difference, once found, is kept.
proof fn differences_gather(all: u8, x: u8, y: u8)
    ensures
        ((all | (x ^ y)) == 0) == (all == 0 && x == y),
{
    assert(((all | (x ^ y)) == 0) == (all == 0 && x == y)) by (bit_vector);
}

/// The token that devices must show.
pub struct TokenManager {
    current_token: AuthToken,
}

impl TokenManager {
    /// The text of the token that devices must show.
    pub closed spec fn current(&self) -> Seq<char> {
        self.current_token.text()
    }

    /// Asks for a new token.
    pub fn new() -> (r: TokenManager)
        ensures
            is_fresh(r.current()),
    {
        TokenManager { current_token: AuthToken::generate() }
    }

    /// The token that devices must show.
    pub fn current_token(&self) -> (r: &AuthToken)
        ensures
            r.text() == self.current(),
    {
        &self.current_token
    }

    /// Asks for another new token from now on.
    pub fn regenerate(&mut self) -> (r: &AuthToken)
        ensures
            is_fresh(final(self).current()),
            r.text() == final(self).current(),
    {
        self.current_token = AuthToken::generate();
        &self.current_token
    }

    /// Whether a token is the one that devices must show.
    pub fn validate(&self, token: &AuthToken) -> (r: bool)
        ensures
            r == (token.text() == self.current()),
    {
        token.validate(&self.current_token)
    }
}

impl Default for TokenManager {
    fn default() -> (r: TokenManager)
        ensures
            is_fresh(r.current()),
    {
        TokenManager::new()
    }
}

} // verus!

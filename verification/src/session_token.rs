//! Session tokens: thirty-two symbols of the hexadecimal alphabet, drawn at
//! random when a user logs in.

use crate::hex::all_symbols;
use crate::hex::byte_length;
use crate::hex::is_symbol;
use crate::hex::lemma_chars_within_bytes;
use crate::hex::lemma_digits_one_byte_each;
use crate::hex::random_symbols;
use crate::hex::same_text;
use crate::hex::text_of;
use vstd::prelude::*;

verus! {

/// The number of symbols in a session token.
pub const SESSION_TOKEN_LEN: usize = 32;

/// Whether `s` is the text of a session token: thirty-two symbols.
pub open spec fn is_session_token(s: Seq<char>) -> bool {
    s.len() == SESSION_TOKEN_LEN && all_symbols(s)
}

/// The bearer credential of one login. A user may hold several. Two tokens
/// are equal when their symbol sequences are.
#[derive(Clone, Copy, Debug, Eq, Hash)]
pub struct SessionToken([char; SESSION_TOKEN_LEN]);

impl PartialEq for SessionToken {
    fn eq(&self, other: &Self) -> (b: bool) {
        same_text(&self.0, &other.0)
    }
}

impl vstd::std_specs::cmp::PartialEqSpecImpl for SessionToken {
    open spec fn obeys_eq_spec() -> bool {
        true
    }

    open spec fn eq_spec(&self, other: &Self) -> bool {
        self@ == other@
    }
}

impl View for SessionToken {
    type V = Seq<char>;

    closed spec fn view(&self) -> Seq<char> {
        self.0@
    }
}

impl SessionToken {
    #[verifier::type_invariant]
    spec fn well_formed(self) -> bool {
        all_symbols(self.0@)
    }

    /// A fresh token, each symbol drawn at random.
    pub fn new() -> (token: SessionToken)
        ensures
            is_session_token(token@),
    {
        SessionToken(random_symbols::<SESSION_TOKEN_LEN>())
    }

    /// Reads a token from its text. Only the text that `to_string` writes is
    /// accepted: thirty-two symbols, the letters in lower case.
    pub fn from_str(s: &str) -> (r: Result<SessionToken, &str>)
        ensures
            match r {
                Ok(token) => is_session_token(s@) && token@ == s@,
                Err(message) => !is_session_token(s@) && message@ == (if byte_length(s@)
                    != SESSION_TOKEN_LEN {
                    "Could not deserialize SessionToken"@
                } else {
                    "Invalid character"@
                }),
            },
    {
        if s.as_bytes().len() != SESSION_TOKEN_LEN {
            proof {
                if is_session_token(s@) {
                    lemma_symbols_are_digits(s@);
                    lemma_digits_one_byte_each(s@);
                }
            }
            return Err("Could not deserialize SessionToken");
        }
        let mut inner: [char; SESSION_TOKEN_LEN] = ['0'; SESSION_TOKEN_LEN];
        let mut i: usize = 0;
        proof {
            lemma_chars_within_bytes(s@);
        }
        for c in iter: s.chars()
            invariant
                iter.seq() == s@,
                i == iter.index(),
                s@.len() <= SESSION_TOKEN_LEN,
                byte_length(s@) == SESSION_TOKEN_LEN,
                inner@.len() == SESSION_TOKEN_LEN,
                forall|j: int| 0 <= j < i ==> is_symbol(#[trigger] s@[j]),
                forall|j: int| 0 <= j < i ==> inner@[j] == #[trigger] s@[j],
        {
            if (c >= '0' && c <= '9') || (c >= 'a' && c <= 'f') {
                inner[i] = c;
            } else {
                return Err("Invalid character");
            }
            i += 1;
        }
        proof {
            lemma_symbols_are_digits(s@);
            lemma_digits_one_byte_each(s@);
            assert(inner@ =~= s@);
        }
        Ok(SessionToken(inner))
    }

    /// The thirty-two symbols as a string.
    pub fn to_string(&self) -> (s: String)
        ensures
            s@ == self@,
            is_session_token(s@),
    {
        proof {
            use_type_invariant(self);
        }
        text_of(&self.0)
    }
}

proof fn lemma_symbols_are_digits(s: Seq<char>)
    requires
        all_symbols(s),
    ensures
        crate::hex::all_digits(s),
{
    assert forall|i: int| 0 <= i < s.len() implies crate::hex::is_digit(#[trigger] s[i]) by {
        assert(is_symbol(s[i]));
    }
}

} // verus!

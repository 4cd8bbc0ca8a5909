//! The password policy, and passwords kept as Keccak-256 digests.

use crate::hex::byte_length;
use crate::hex::is_digit;
use crate::hex::symbol;
use crate::hex::symbol_of;
use crate::hex::value;
use crate::hex::value_of;
use sha3::Digest;
use vstd::prelude::*;
use vstd::utf8::encode_utf8;

verus! {

/// A password has more bytes than this.
pub const MIN_PASSWORD_LENGTH: usize = 6;

/// A password has fewer bytes than this.
pub const MAX_PASSWORD_LENGTH: usize = 15;

/// Whether `c` is a special character: a digit or one of
/// `= ! < [ > ] ( ) - / { } ~ + % $ | # ' ; &` or the euro sign.
pub open spec fn is_special(c: char) -> bool {
    ('0' <= c && c <= '9') || c == '=' || c == '!' || c == '<' || c == '[' || c == '>' || c == ']'
        || c == '(' || c == ')' || c == '-' || c == '/' || c == '{' || c == '}' || c == '~' || c
        == '+' || c == '%' || c == '$' || c == '|' || c == '#' || c == '\'' || c == ';' || c == '&'
        || c == '\u{20ac}'
}

/// Whether `c` may not occur in a password: one of `# : \ "`.
pub open spec fn is_invalid(c: char) -> bool {
    c == '#' || c == ':' || c == '\\' || c == '"'
}

/// Whether some character of `s` is special.
pub open spec fn has_special(s: Seq<char>) -> bool {
    exists|i: int| 0 <= i < s.len() && is_special(#[trigger] s[i])
}

/// Whether some character of `s` is invalid.
pub open spec fn has_invalid(s: Seq<char>) -> bool {
    exists|i: int| 0 <= i < s.len() && is_invalid(#[trigger] s[i])
}

/// The password policy: more than six and fewer than fifteen bytes, a special
/// character, and no invalid one.
pub open spec fn acceptable(password: Seq<char>) -> bool {
    &&& MIN_PASSWORD_LENGTH < byte_length(password) < MAX_PASSWORD_LENGTH
    &&& has_special(password)
    &&& !has_invalid(password)
}

/// Whether `c` is a special character.
pub fn is_special_char(c: char) -> (b: bool)
    ensures
        b == is_special(c),
{
    (c >= '0' && c <= '9') || c == '=' || c == '!' || c == '<' || c == '[' || c == '>' || c == ']'
        || c == '(' || c == ')' || c == '-' || c == '/' || c == '{' || c == '}' || c == '~' || c
        == '+' || c == '%' || c == '$' || c == '|' || c == '#' || c == '\'' || c == ';' || c == '&'
        || c == '\u{20ac}'
}

/// Whether `c` may not occur in a password.
pub fn is_invalid_char(c: char) -> (b: bool)
    ensures
        b == is_invalid(c),
{
    c == '#' || c == ':' || c == '\\' || c == '"'
}

/// Whether `password` meets the policy.
pub fn meets_policy(password: &str) -> (b: bool)
    ensures
        b == acceptable(password@),
{
    let length: usize = password.as_bytes().len();
    if length <= MIN_PASSWORD_LENGTH || length >= MAX_PASSWORD_LENGTH {
        return false;
    }
    let mut special: bool = false;
    let mut invalid: bool = false;
    for c in iter: password.chars()
        invariant
            iter.seq() == password@,
            special == has_special(password@.take(iter.index() as int)),
            invalid == has_invalid(password@.take(iter.index() as int)),
    {
        let ghost seen = password@.take(iter.index() as int);
        let ghost now = password@.take(iter.index() + 1);
        proof {
            assert(now =~= seen.push(c));
            if has_special(seen) {
                let w = choose|i: int| 0 <= i < seen.len() && is_special(#[trigger] seen[i]);
                assert(is_special(now[w]));
            }
            if has_invalid(seen) {
                let w = choose|i: int| 0 <= i < seen.len() && is_invalid(#[trigger] seen[i]);
                assert(is_invalid(now[w]));
            }
            if is_special(c) {
                assert(is_special(now[seen.len() as int]));
            }
            if is_invalid(c) {
                assert(is_invalid(now[seen.len() as int]));
            }
            if has_special(now) && !is_special(c) {
                let w = choose|i: int| 0 <= i < now.len() && is_special(#[trigger] now[i]);
                assert(is_special(seen[w]));
            }
            if has_invalid(now) && !is_invalid(c) {
                let w = choose|i: int| 0 <= i < now.len() && is_invalid(#[trigger] now[i]);
                assert(is_invalid(seen[w]));
            }
        }
        if is_special_char(c) {
            special = true;
        }
        if is_invalid_char(c) {
            invalid = true;
        }
    }
    proof {
        assert(password@.take(password@.len() as int) =~= password@);
    }
    special && !invalid
}

/// The Keccak-256 digest of a sequence of bytes.
pub uninterp spec fn keccak256(data: Seq<u8>) -> Seq<u8>;

/// The digest under which a password is kept: that of its UTF-8 bytes.
pub open spec fn digest_of(password: Seq<char>) -> Seq<u8> {
    keccak256(encode_utf8(password))
}

/// Calls `sha3::Keccak256::digest` on `data` and copies the bytes of its
/// output into a vector. The digest is a function of the data alone; the
/// contract gives it a name and says nothing else of it.
#[verifier::external_body]
fn keccak256_digest(data: &[u8]) -> (digest: Vec<u8>)
    ensures
        digest@ == keccak256(data@),
{
    sha3::Keccak256::digest(data).into_iter().collect()
}

/// The text of a digest: two symbols for each byte, the high half first.
pub open spec fn encoded(digest: Seq<u8>) -> Seq<char> {
    Seq::new(
        2 * digest.len(),
        |i: int|
            if i % 2 == 0 {
                symbol(digest[i / 2] as int / 16)
            } else {
                symbol(digest[i / 2] as int % 16)
            },
    )
}

/// The byte that two characters stand for: two hexadecimal digits in either
/// case, the high half first; or a plus sign and one digit, as the integer
/// syntax of the standard library has it.
pub open spec fn pair_value(high: char, low: char) -> Option<u8> {
    if is_digit(high) && is_digit(low) {
        Some((16 * value(high) + value(low)) as u8)
    } else if high == '+' && is_digit(low) {
        Some(value(low) as u8)
    } else {
        None
    }
}

/// Whether `s` is read as a digest: an even number of characters, each two
/// of which stand for a byte.
pub open spec fn is_encoding(s: Seq<char>) -> bool {
    &&& s.len() % 2 == 0
    &&& forall|k: int| 0 <= k < s.len() / 2 ==> (#[trigger] pair_value(s[2 * k], s[2 * k + 1])) is Some
}

/// The bytes that the text of a digest stands for.
pub open spec fn decoded(s: Seq<char>) -> Seq<u8> {
    Seq::new(s.len() / 2, |k: int| pair_value(s[2 * k], s[2 * k + 1])->0)
}

/// The byte that `high` and `low` stand for, if they stand for one.
pub fn byte_of_pair(high: char, low: char) -> (r: Option<u8>)
    ensures
        r == pair_value(high, low),
{
    match value_of(low) {
        None => None,
        Some(l) => match value_of(high) {
            Some(h) => Some(h * 16 + l),
            None => if high == '+' {
                Some(l)
            } else {
                None
            },
        },
    }
}

/// A password as it is stored: its digest, never the plaintext. Two of them
/// are equal when their digests are, byte for byte.
#[derive(Debug, Clone)]
pub struct HashedPassword(Vec<u8>);

impl PartialEq for HashedPassword {
    fn eq(&self, other: &Self) -> (b: bool) {
        self.has_digest(other.0.as_slice())
    }
}

impl vstd::std_specs::cmp::PartialEqSpecImpl for HashedPassword {
    open spec fn obeys_eq_spec() -> bool {
        true
    }

    open spec fn eq_spec(&self, other: &Self) -> bool {
        self@ == other@
    }
}

impl View for HashedPassword {
    type V = Seq<u8>;

    closed spec fn view(&self) -> Seq<u8> {
        self.0@
    }
}

impl HashedPassword {
    /// Hashes a plaintext password.
    pub fn new(password: String) -> (hashed: HashedPassword)
        ensures
            hashed@ == digest_of(password@),
    {
        HashedPassword(Self::hash(password.as_str()))
    }

    fn hash(string: &str) -> (digest: Vec<u8>)
        ensures
            digest@ == digest_of(string@),
    {
        keccak256_digest(string.as_bytes())
    }

    /// Whether this is the digest of `password`.
    pub open spec fn accepts(&self, password: Seq<char>) -> bool {
        self@ == digest_of(password)
    }

    /// Whether `password` is the plaintext of this digest: it is hashed and
    /// the digests are compared.
    pub fn matches(&self, password: &str) -> (b: bool)
        ensures
            b == self.accepts(password@),
    {
        let candidate = Self::hash(password);
        self.has_digest(candidate.as_slice())
    }

    /// The stored form of a digest that was computed elsewhere.
    pub fn from_digest(digest: Vec<u8>) -> (hashed: HashedPassword)
        ensures
            hashed@ == digest@,
    {
        HashedPassword(digest)
    }

    /// Whether this is the digest `digest`, byte for byte.
    pub fn has_digest(&self, digest: &[u8]) -> (b: bool)
        ensures
            b == (self@ == digest@),
    {
        if self.0.len() != digest.len() {
            return false;
        }
        let mut i: usize = 0;
        while i < digest.len()
            invariant
                i <= digest@.len(),
                self.0@.len() == digest@.len(),
                forall|j: int| 0 <= j < i ==> self.0@[j] == digest@[j],
            decreases digest@.len() - i,
        {
            if self.0[i] != digest[i] {
                return false;
            }
            i += 1;
        }
        proof {
            assert(self.0@ =~= digest@);
        }
        true
    }

    /// Reads a digest from its text.
    pub fn from_str(string: &str) -> (r: Result<HashedPassword, &str>)
        ensures
            match r {
                Ok(hashed) => is_encoding(string@) && hashed@ == decoded(string@),
                Err(message) => !is_encoding(string@) && message@ == "Invalid hex byte"@,
            },
    {
        let mut bytes: Vec<u8> = Vec::new();
        let mut pending: Option<char> = None;
        for c in iter: string.chars()
            invariant
                iter.seq() == string@,
                bytes@.len() == iter.index() / 2,
                forall|k: int|
                    0 <= k < bytes@.len() ==> (#[trigger] pair_value(
                        string@[2 * k],
                        string@[2 * k + 1],
                    )) == Some(bytes@[k]),
                pending is Some <==> iter.index() % 2 == 1,
                pending matches Some(high) ==> high == string@[iter.index() - 1],
        {
            match pending {
                None => {
                    pending = Some(c);
                },
                Some(high) => {
                    match byte_of_pair(high, c) {
                        Some(byte) => {
                            bytes.push(byte);
                            pending = None;
                        },
                        None => {
                            proof {
                                let k = iter.index() / 2;
                                assert(pair_value(string@[2 * k], string@[2 * k + 1]) is None);
                            }
                            return Err("Invalid hex byte");
                        },
                    }
                },
            }
        }
        if pending.is_some() {
            return Err("Invalid hex byte");
        }
        proof {
            assert(bytes@ =~= decoded(string@));
        }
        Ok(HashedPassword(bytes))
    }

    /// The text of the digest, in lower case.
    pub fn to_string(&self) -> (s: String)
        ensures
            s@ == encoded(self@),
    {
        let mut s = String::new();
        let mut i: usize = 0;
        while i < self.0.len()
            invariant
                i <= self.0@.len(),
                s@ == encoded(self.0@.take(i as int)),
            decreases self.0@.len() - i,
        {
            let byte: u8 = self.0[i];
            let ghost before = s@;
            s.push(symbol_of(byte / 16));
            s.push(symbol_of(byte));
            proof {
                let seen = self.0@.take(i as int);
                let now = self.0@.take(i + 1);
                assert(now =~= seen.push(byte));
                assert(s@ =~= encoded(now)) by {
                    assert forall|k: int| 0 <= k < s@.len() implies s@[k] == encoded(now)[k] by {
                        if k < 2 * i {
                            assert(before[k] == encoded(seen)[k]);
                            assert(now[k / 2] == seen[k / 2]);
                        }
                    }
                }
            }
            i += 1;
        }
        proof {
            assert(self.0@.take(self.0@.len() as int) =~= self.0@);
        }
        s
    }
}

/// A password is accepted by the digest that was made of it.
pub proof fn lemma_accepts_own_password(hashed: HashedPassword, password: Seq<char>)
    requires
        hashed@ == digest_of(password),
    ensures
        hashed.accepts(password),
{
}

/// A digest accepts a second password exactly when both passwords have the
/// same digest.
pub proof fn lemma_accepts_same_digest_only(
    hashed: HashedPassword,
    password: Seq<char>,
    other: Seq<char>,
)
    requires
        hashed@ == digest_of(password),
    ensures
        hashed.accepts(other) <==> digest_of(other) == digest_of(password),
{
}

/// The text of a digest is read as that digest: reading undoes writing.
pub proof fn lemma_read_own_text(digest: Seq<u8>)
    ensures
        is_encoding(encoded(digest)),
        decoded(encoded(digest)) == digest,
{
    let text = encoded(digest);
    assert forall|k: int| 0 <= k < digest.len() implies #[trigger] pair_value(
        text[2 * k],
        text[2 * k + 1],
    ) == Some(digest[k]) by {
        let byte = digest[k];
        assert((2 * k) / 2 == k && (2 * k) % 2 == 0);
        assert((2 * k + 1) / 2 == k && (2 * k + 1) % 2 == 1);
        assert(text[2 * k] == symbol(byte as int / 16));
        assert(text[2 * k + 1] == symbol(byte as int % 16));
        assert(value(symbol(byte as int / 16)) == byte as int / 16);
        assert(value(symbol(byte as int % 16)) == byte as int % 16);
    }
    assert(decoded(text) =~= digest);
}

} // verus!

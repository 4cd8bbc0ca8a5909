//! User identifiers: twelve symbols of the hexadecimal alphabet.

use crate::hex::all_digits;
use crate::hex::all_symbols;
use crate::hex::byte_length;
use crate::hex::lemma_chars_within_bytes;
use crate::hex::lemma_digits_one_byte_each;
use crate::hex::lower;
use crate::hex::random_symbols;
use crate::hex::same_text;
use crate::hex::symbol_of;
use crate::hex::text_of;
use crate::hex::value_of;
use std::cmp::Ordering;
use vstd::prelude::*;

verus! {

/// The number of symbols in a user identifier.
pub const USER_ID_LEN: usize = 12;

/// Whether `s` is the text of a user identifier: twelve symbols.
pub open spec fn is_user_id(s: Seq<char>) -> bool {
    s.len() == USER_ID_LEN && all_symbols(s)
}

/// Whether `s` is read as a user identifier: twelve bytes, each of them a
/// hexadecimal digit in either case.
pub open spec fn is_readable(s: Seq<char>) -> bool {
    byte_length(s) == USER_ID_LEN && all_digits(s)
}

/// The identifier that a readable text stands for: its digits in lower case.
pub open spec fn canonical(s: Seq<char>) -> Seq<char> {
    s.map_values(|c: char| lower(c))
}

/// The primary key of a user. Two identifiers are equal when their symbol
/// sequences are, and they are ordered as their symbol sequences are.
#[derive(Clone, Copy, Debug, Eq, Ord, Hash)]
pub struct UserId([char; USER_ID_LEN]);

impl View for UserId {
    type V = Seq<char>;

    closed spec fn view(&self) -> Seq<char> {
        self.0@
    }
}

impl UserId {
    #[verifier::type_invariant]
    spec fn well_formed(self) -> bool {
        all_symbols(self.0@)
    }

    /// A fresh identifier, each symbol drawn at random. Nothing makes it
    /// differ from the identifiers already in use: the caller checks that.
    pub fn new() -> (id: UserId)
        ensures
            is_user_id(id@),
    {
        Self::generate_inner()
    }

    fn generate_inner() -> (id: UserId)
        ensures
            is_user_id(id@),
    {
        UserId(random_symbols::<USER_ID_LEN>())
    }

    /// Reads an identifier, taking its digits in either case.
    pub fn from_str(s: &str) -> (r: Result<UserId, &str>)
        ensures
            match r {
                Ok(id) => is_readable(s@) && id@ == canonical(s@) && is_user_id(id@),
                Err(message) => !is_readable(s@) && message@ == (if byte_length(s@)
                    != USER_ID_LEN {
                    "Could not deserialize UserId"@
                } else {
                    "Invalid character"@
                }),
            },
    {
        if s.as_bytes().len() != USER_ID_LEN {
            return Err("Could not deserialize UserId");
        }
        let mut inner: [char; USER_ID_LEN] = ['0'; USER_ID_LEN];
        let mut i: usize = 0;
        proof {
            lemma_chars_within_bytes(s@);
        }
        for c in iter: s.chars()
            invariant
                iter.seq() == s@,
                i == iter.index(),
                s@.len() <= USER_ID_LEN,
                byte_length(s@) == USER_ID_LEN,
                inner@.len() == USER_ID_LEN,
                forall|j: int| 0 <= j < i ==> crate::hex::is_digit(#[trigger] s@[j]),
                forall|j: int| 0 <= j < i ==> inner@[j] == lower(#[trigger] s@[j]),
                forall|j: int| 0 <= j < i ==> crate::hex::is_symbol(#[trigger] inner@[j]),
        {
            match value_of(c) {
                Some(v) => {
                    inner[i] = symbol_of(v);
                },
                None => {
                    return Err("Invalid character");
                },
            }
            i += 1;
        }
        proof {
            lemma_digits_one_byte_each(s@);
            assert(inner@ =~= canonical(s@));
        }
        Ok(UserId(inner))
    }

    /// The twelve symbols as a string.
    pub fn to_string(&self) -> (s: String)
        ensures
            s@ == self@,
            is_user_id(s@),
    {
        proof {
            use_type_invariant(self);
        }
        text_of(&self.0)
    }
}

/// Whether `a` comes before `b` in the order of their symbol sequences:
/// they agree up to some place, and there `a` has the smaller symbol.
pub open spec fn precedes(a: Seq<char>, b: Seq<char>) -> bool {
    exists|i: int|
        0 <= i < a.len() && i < b.len() && #[trigger] a[i] < b[i] && forall|j: int|
            0 <= j < i ==> a[j] == b[j]
}

impl PartialEq for UserId {
    fn eq(&self, other: &Self) -> (b: bool) {
        same_text(&self.0, &other.0)
    }
}

impl vstd::std_specs::cmp::PartialEqSpecImpl for UserId {
    open spec fn obeys_eq_spec() -> bool {
        true
    }

    open spec fn eq_spec(&self, other: &Self) -> bool {
        self@ == other@
    }
}

impl PartialOrd for UserId {
    fn partial_cmp(&self, other: &Self) -> (r: Option<Ordering>) {
        let mut i: usize = 0;
        while i < USER_ID_LEN
            invariant
                i <= USER_ID_LEN,
                forall|j: int| 0 <= j < i ==> self.0@[j] == other.0@[j],
            decreases USER_ID_LEN - i,
        {
            if self.0[i] < other.0[i] {
                proof {
                    lemma_before(self.0@, other.0@, i);
                }
                return Some(Ordering::Less);
            }
            if self.0[i] > other.0[i] {
                proof {
                    lemma_before(other.0@, self.0@, i);
                    lemma_order_is_strict(other.0@, self.0@);
                }
                return Some(Ordering::Greater);
            }
            i += 1;
        }
        proof {
            assert(self.0@ =~= other.0@);
        }
        Some(Ordering::Equal)
    }
}

impl vstd::std_specs::cmp::PartialOrdSpecImpl for UserId {
    open spec fn obeys_partial_cmp_spec() -> bool {
        true
    }

    open spec fn partial_cmp_spec(&self, other: &Self) -> Option<Ordering> {
        if self@ == other@ {
            Some(Ordering::Equal)
        } else if precedes(self@, other@) {
            Some(Ordering::Less)
        } else {
            Some(Ordering::Greater)
        }
    }
}

/// Where `a` has the smaller symbol at the first place at which it differs
/// from `b`, it comes before `b`.
proof fn lemma_before(a: Seq<char>, b: Seq<char>, i: usize)
    requires
        0 <= i < a.len(),
        i < b.len(),
        a[i as int] < b[i as int],
        forall|j: int| 0 <= j < i ==> a[j] == b[j],
    ensures
        precedes(a, b),
        a != b,
{
    assert(a[i as int] < b[i as int]);
}

/// Of two sequences of one length that agree before the place `k`, one
/// comes before the other, or they are equal.
proof fn lemma_ordered_from(a: Seq<char>, b: Seq<char>, k: int)
    requires
        a.len() == b.len(),
        0 <= k <= a.len(),
        forall|j: int| 0 <= j < k ==> a[j] == b[j],
    ensures
        a == b || precedes(a, b) || precedes(b, a),
    decreases a.len() - k,
{
    if k == a.len() {
        assert(a =~= b);
    } else if a[k] == b[k] {
        lemma_ordered_from(a, b, k + 1);
    } else if a[k] < b[k] {
        assert(precedes(a, b));
    } else {
        assert(b[k] < a[k]);
        assert(precedes(b, a));
    }
}

/// The order of identifiers is total: of two identifiers, one comes before
/// the other, or they are equal. So an identifier that compares as greater
/// is one that the other comes before.
pub proof fn lemma_order_is_total(a: Seq<char>, b: Seq<char>)
    requires
        a.len() == b.len(),
    ensures
        a == b || precedes(a, b) || precedes(b, a),
{
    lemma_ordered_from(a, b, 0);
}

/// The order of identifiers is strict: an identifier that comes before
/// another is not equal to it and does not come after it.
pub proof fn lemma_order_is_strict(a: Seq<char>, b: Seq<char>)
    requires
        precedes(a, b),
    ensures
        a != b,
        !precedes(b, a),
{
    let i = choose|i: int|
        0 <= i < a.len() && i < b.len() && #[trigger] a[i] < b[i] && forall|j: int|
            0 <= j < i ==> a[j] == b[j];
    if precedes(b, a) {
        let k = choose|k: int|
            0 <= k < b.len() && k < a.len() && #[trigger] b[k] < a[k] && forall|j: int|
                0 <= j < k ==> b[j] == a[j];
        if k < i {
            assert(a[k] == b[k]);
        } else if i < k {
            assert(b[i] == a[i]);
        }
    }
}

/// A text is read as an identifier exactly when it has twelve characters and
/// each of them is a hexadecimal digit, in either case. So a text of another
/// length is refused, and so is one that holds any other character.
pub proof fn lemma_readable_texts(s: Seq<char>)
    ensures
        is_readable(s) <==> s.len() == USER_ID_LEN && all_digits(s),
{
    if all_digits(s) {
        lemma_digits_one_byte_each(s);
    }
}

/// What is read from a readable text is an identifier.
pub proof fn lemma_read_gives_identifier(s: Seq<char>)
    requires
        is_readable(s),
    ensures
        is_user_id(canonical(s)),
{
    lemma_readable_texts(s);
    assert forall|i: int| 0 <= i < canonical(s).len() implies crate::hex::is_symbol(
        #[trigger] canonical(s)[i],
    ) by {
        assert(crate::hex::is_digit(s[i]));
    }
}

/// The text of an identifier is read as that identifier: reading undoes
/// writing.
pub proof fn lemma_read_own_text(s: Seq<char>)
    requires
        is_user_id(s),
    ensures
        is_readable(s),
        canonical(s) == s,
{
    assert(all_digits(s)) by {
        assert forall|i: int| 0 <= i < s.len() implies crate::hex::is_digit(#[trigger] s[i]) by {
            assert(crate::hex::is_symbol(s[i]));
        }
    }
    lemma_readable_texts(s);
    assert(canonical(s) =~= s) by {
        assert forall|i: int| 0 <= i < s.len() implies canonical(s)[i] == s[i] by {
            assert(crate::hex::is_symbol(s[i]));
        }
    }
}

/// A text that differs from an identifier's text only in the case of its
/// digits is read as the same identifier.
pub proof fn lemma_read_ignores_case(s: Seq<char>, t: Seq<char>)
    requires
        is_readable(s),
        t.len() == s.len(),
        forall|i: int| 0 <= i < s.len() ==> lower(#[trigger] t[i]) == lower(s[i]),
        all_digits(t),
    ensures
        is_readable(t),
        canonical(t) == canonical(s),
{
    lemma_readable_texts(s);
    lemma_readable_texts(t);
    assert(canonical(t) =~= canonical(s));
}

} // verus!

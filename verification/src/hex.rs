//! The sixteen-symbol alphabet shared by identifiers, tokens and digests.

use rand::Rng;
use vstd::prelude::*;
use vstd::utf8::encode_scalar;
use vstd::utf8::encode_utf8;

verus! {

/// Whether `c` is one of the sixteen symbols `0` to `9` and `a` to `f`.
pub open spec fn is_symbol(c: char) -> bool {
    ('0' <= c && c <= '9') || ('a' <= c && c <= 'f')
}

/// Whether `c` is a hexadecimal digit in either case.
pub open spec fn is_digit(c: char) -> bool {
    is_symbol(c) || ('A' <= c && c <= 'F')
}

/// The symbol that stands for the value `v`, for `0 <= v < 16`.
pub open spec fn symbol(v: int) -> char {
    if v < 10 {
        ('0' as int + v) as char
    } else {
        ('a' as int + v - 10) as char
    }
}

/// The value of a hexadecimal digit, in either case.
pub open spec fn value(c: char) -> int {
    if '0' <= c && c <= '9' {
        c as int - '0' as int
    } else if 'a' <= c && c <= 'f' {
        c as int - 'a' as int + 10
    } else {
        c as int - 'A' as int + 10
    }
}

/// The symbol that a hexadecimal digit stands for: `A` to `F` become `a` to `f`,
/// every other character is itself.
pub open spec fn lower(c: char) -> char {
    if 'A' <= c && c <= 'F' {
        (c as int + 32) as char
    } else {
        c
    }
}

/// Whether every character of `s` is a symbol.
pub open spec fn all_symbols(s: Seq<char>) -> bool {
    forall|i: int| 0 <= i < s.len() ==> is_symbol(#[trigger] s[i])
}

/// Whether every character of `s` is a hexadecimal digit.
pub open spec fn all_digits(s: Seq<char>) -> bool {
    forall|i: int| 0 <= i < s.len() ==> is_digit(#[trigger] s[i])
}

/// The number of bytes that `s` takes in UTF-8.
pub open spec fn byte_length(s: Seq<char>) -> nat {
    encode_utf8(s).len()
}

/// A character takes at least one byte, so a string has no more characters
/// than bytes.
pub proof fn lemma_chars_within_bytes(s: Seq<char>)
    ensures
        s.len() <= byte_length(s),
    decreases s.len(),
{
    if s.len() > 0 {
        lemma_chars_within_bytes(s.drop_first());
        assert(encode_scalar(s[0] as u32).len() >= 1);
    }
}

/// A string of hexadecimal digits takes one byte for each character.
pub proof fn lemma_digits_one_byte_each(s: Seq<char>)
    requires
        all_digits(s),
    ensures
        byte_length(s) == s.len(),
{
    assert(vstd::utf8::is_ascii_chars(s)) by {
        assert forall|i: int| 0 <= i < s.len() implies '\0' <= #[trigger] s[i] <= '\u{7f}' by {
            assert(is_digit(s[i]));
        }
    }
    vstd::utf8::is_ascii_chars_encode_utf8(s);
}

/// The symbol for the low four bits of `v`.
pub fn symbol_of(v: u8) -> (c: char)
    ensures
        c == symbol(v as int % 16),
        is_symbol(c),
        value(c) == v % 16,
{
    match v % 16 {
        0 => '0',
        1 => '1',
        2 => '2',
        3 => '3',
        4 => '4',
        5 => '5',
        6 => '6',
        7 => '7',
        8 => '8',
        9 => '9',
        10 => 'a',
        11 => 'b',
        12 => 'c',
        13 => 'd',
        14 => 'e',
        _ => 'f',
    }
}

/// The value of `c` where it is a hexadecimal digit, and `None` where it is
/// not.
pub fn value_of(c: char) -> (r: Option<u8>)
    ensures
        r is Some <==> is_digit(c),
        r matches Some(v) ==> v == value(c) && v < 16 && symbol(v as int) == lower(c),
{
    if c >= '0' && c <= '9' {
        Some((c as u8) - 48)
    } else if c >= 'a' && c <= 'f' {
        Some((c as u8) - 87)
    } else if c >= 'A' && c <= 'F' {
        Some((c as u8) - 55)
    } else {
        None
    }
}

/// Calls `rand::Rng::gen_range` on `rand::thread_rng()` with the bounds `0`
/// and `bound`. The crate documents the result as lying in `[0, bound)`, and
/// panics when the range is empty, which `requires` rules out. Nothing more
/// is claimed: two calls may differ.
#[verifier::external_body]
fn random_below(bound: usize) -> (r: usize)
    requires
        bound > 0,
    ensures
        r < bound,
{
    rand::thread_rng().gen_range(0, bound)
}

/// A symbol drawn at random.
pub fn random_symbol() -> (c: char)
    ensures
        is_symbol(c),
{
    let v: usize = random_below(16);
    symbol_of(v as u8)
}

/// `N` symbols, each drawn at random.
pub fn random_symbols<const N: usize>() -> (a: [char; N])
    ensures
        all_symbols(a@),
{
    let mut a: [char; N] = ['0'; N];
    let mut i: usize = 0;
    while i < N
        invariant
            i <= N,
            a@.len() == N,
            forall|j: int| 0 <= j < i ==> is_symbol(#[trigger] a@[j]),
        decreases N - i,
    {
        a[i] = random_symbol();
        i += 1;
    }
    a
}

/// The characters of `a` as a string.
pub fn text_of<const N: usize>(a: &[char; N]) -> (s: String)
    ensures
        s@ == a@,
{
    let mut s = String::new();
    let mut i: usize = 0;
    while i < N
        invariant
            i <= N,
            a@.len() == N,
            s@ == a@.subrange(0, i as int),
        decreases N - i,
    {
        s.push(a[i]);
        i += 1;
    }
    s
}

/// Whether `a` and `b` hold the same characters in the same order.
pub fn same_text<const N: usize>(a: &[char; N], b: &[char; N]) -> (same: bool)
    ensures
        same == (a@ == b@),
{
    let mut i: usize = 0;
    while i < N
        invariant
            i <= N,
            a@.len() == N,
            b@.len() == N,
            forall|j: int| 0 <= j < i ==> a@[j] == b@[j],
        decreases N - i,
    {
        if a[i] != b[i] {
            return false;
        }
        i += 1;
    }
    proof {
        assert(a@ =~= b@);
    }
    true
}

/// `String::push` appends one character to the string, as its documentation
/// says.
pub assume_specification[ String::push ](s: &mut String, ch: char)
    ensures
        final(s)@ == old(s)@.push(ch),
;

} // verus!

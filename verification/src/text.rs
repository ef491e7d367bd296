//! Character-level text utilities shared by the ingestion pipeline: trimming,
//! substring search, equality, and the case mapping used to normalise chat
//! commands and link codes (ASCII letters and the Cyrillic alphabet).

use vstd::prelude::*;

verus! {

/// The whitespace characters this library strips from the ends of input text.
pub open spec fn is_space_char(c: char) -> bool {
    c == ' ' || c == '\t' || c == '\n' || c == '\r'
}

/// Number of leading whitespace characters of `s`.
pub open spec fn count_leading_spaces(s: Seq<char>) -> int
    decreases s.len(),
{
    if s.len() == 0 {
        0
    } else if !is_space_char(s[0]) {
        0
    } else {
        1 + count_leading_spaces(s.subrange(1, s.len() as int))
    }
}

/// Number of trailing whitespace characters of `s`.
pub open spec fn count_trailing_spaces(s: Seq<char>) -> int
    decreases s.len(),
{
    if s.len() == 0 {
        0
    } else if !is_space_char(s[s.len() - 1]) {
        0
    } else {
        1 + count_trailing_spaces(s.subrange(0, s.len() - 1))
    }
}

/// `s` with leading and trailing whitespace removed.
pub open spec fn trimmed(s: Seq<char>) -> Seq<char> {
    let a = count_leading_spaces(s);
    let rest = s.subrange(a, s.len() as int);
    rest.subrange(0, rest.len() - count_trailing_spaces(rest))
}

proof fn lemma_count_leading_spaces_bounds(s: Seq<char>)
    ensures
        0 <= count_leading_spaces(s) <= s.len(),
        forall|k: int| 0 <= k < count_leading_spaces(s) ==> is_space_char(s[k]),
        count_leading_spaces(s) < s.len() ==> !is_space_char(s[count_leading_spaces(s)]),
    decreases s.len(),
{
    if s.len() > 0 && is_space_char(s[0]) {
        let rest = s.subrange(1, s.len() as int);
        lemma_count_leading_spaces_bounds(rest);
        assert forall|k: int| 0 <= k < count_leading_spaces(s) implies is_space_char(s[k]) by {
            if k > 0 {
                assert(s[k] == rest[k - 1]);
            }
        }
    }
}

proof fn lemma_count_trailing_spaces_bounds(s: Seq<char>)
    ensures
        0 <= count_trailing_spaces(s) <= s.len(),
        forall|k: int| s.len() - count_trailing_spaces(s) <= k < s.len() ==> is_space_char(s[k]),
        count_trailing_spaces(s) < s.len() ==> !is_space_char(
            s[s.len() - count_trailing_spaces(s) - 1],
        ),
    decreases s.len(),
{
    if s.len() > 0 && is_space_char(s[s.len() - 1]) {
        let pre = s.subrange(0, s.len() - 1);
        lemma_count_trailing_spaces_bounds(pre);
        assert forall|k: int|
            s.len() - count_trailing_spaces(s) <= k < s.len() implies is_space_char(s[k]) by {
            if k < s.len() - 1 {
                assert(s[k] == pre[k]);
            }
        }
    }
}

/// The count of leading spaces is pinned down by its characteristic facts.
proof fn lemma_count_leading_spaces_unique(s: Seq<char>, c: int)
    requires
        0 <= c <= s.len(),
        forall|k: int| 0 <= k < c ==> is_space_char(s[k]),
        c < s.len() ==> !is_space_char(s[c]),
    ensures
        c == count_leading_spaces(s),
    decreases s.len(),
{
    if s.len() == 0 {
    } else if c == 0 {
    } else {
        let rest = s.subrange(1, s.len() as int);
        assert(forall|k: int| 0 <= k < c - 1 ==> is_space_char(#[trigger] rest[k]));
        lemma_count_leading_spaces_unique(rest, c - 1);
    }
}

/// The count of trailing spaces is pinned down by its characteristic facts.
proof fn lemma_count_trailing_spaces_unique(s: Seq<char>, c: int)
    requires
        0 <= c <= s.len(),
        forall|k: int| s.len() - c <= k < s.len() ==> is_space_char(s[k]),
        c < s.len() ==> !is_space_char(s[s.len() - c - 1]),
    ensures
        c == count_trailing_spaces(s),
    decreases s.len(),
{
    if s.len() == 0 {
    } else if c == 0 {
    } else {
        let pre = s.subrange(0, s.len() - 1);
        assert(forall|k: int| pre.len() - (c - 1) <= k < pre.len() ==> is_space_char(
            #[trigger] pre[k],
        ));
        lemma_count_trailing_spaces_unique(pre, c - 1);
    }
}

/// Trimming is idempotent: a trimmed sequence has no whitespace left at
/// either end.
pub proof fn lemma_trimmed_idempotent(s: Seq<char>)
    ensures
        trimmed(trimmed(s)) == trimmed(s),
{
    lemma_count_leading_spaces_bounds(s);
    let a = count_leading_spaces(s);
    let rest = s.subrange(a, s.len() as int);
    lemma_count_trailing_spaces_bounds(rest);
    let b = count_trailing_spaces(rest);
    let t = rest.subrange(0, rest.len() - b);
    assert(t == trimmed(s));
    if t.len() == 0 {
        assert(count_leading_spaces(t) == 0);
        assert(count_trailing_spaces(t) == 0);
        assert(trimmed(t) =~= t);
    } else {
        assert(t[0] == rest[0]);
        assert(rest[0] == s[a]);
        assert(!is_space_char(t[0]));
        assert(count_leading_spaces(t) == 0);
        assert(t[t.len() - 1] == rest[rest.len() - b - 1]);
        assert(!is_space_char(t[t.len() - 1]));
        assert(count_trailing_spaces(t) == 0);
        assert(trimmed(t) =~= t);
    }
}

/// Removes leading and trailing whitespace, character by character.
pub fn trim_str(s: &str) -> (r: &str)
    ensures
        r@ == trimmed(s@),
{
    let n = s.unicode_len();
    let mut i: usize = 0;
    while i < n && is_space(s.get_char(i))
        invariant
            0 <= i <= n,
            n == s@.len(),
            forall|k: int| 0 <= k < i ==> is_space_char(s@[k]),
        decreases n - i,
    {
        i = i + 1;
    }
    let mut j: usize = n;
    while j > i && is_space(s.get_char(j - 1))
        invariant
            i <= j <= n,
            n == s@.len(),
            forall|k: int| 0 <= k < i ==> is_space_char(s@[k]),
            i < n ==> !is_space_char(s@[i as int]),
            forall|k: int| j <= k < n ==> is_space_char(s@[k]),
        decreases j,
    {
        j = j - 1;
    }
    let r = s.substring_char(i, j);
    proof {
        lemma_count_leading_spaces_unique(s@, i as int);
        let a = count_leading_spaces(s@);
        let rest = s@.subrange(a, s@.len() as int);
        if j == i {
            lemma_count_trailing_spaces_unique(rest, rest.len() as int);
        } else {
            lemma_count_trailing_spaces_unique(rest, (n - j) as int);
        }
        assert(r@ =~= trimmed(s@));
    }
    r
}

/// Executable test for the whitespace set of `is_space_char`.
pub fn is_space(c: char) -> (r: bool)
    ensures
        r == is_space_char(c),
{
    c == ' ' || c == '\t' || c == '\n' || c == '\r'
}

/// `p` occurs as a contiguous run inside `s`.
pub open spec fn contains_seq(s: Seq<char>, p: Seq<char>) -> bool {
    exists|i: int| 0 <= i && i + p.len() <= s.len() && #[trigger] s.subrange(i, i + p.len()) == p
}

/// `s` begins with `p`.
pub open spec fn starts_with_seq(s: Seq<char>, p: Seq<char>) -> bool {
    p.len() <= s.len() && s.subrange(0, p.len() as int) == p
}

/// Compares the run of `s` starting at `at` against the whole of `p`.
fn match_at(s: &str, p: &str, at: usize) -> (r: bool)
    requires
        at + p@.len() <= s@.len(),
    ensures
        r == (s@.subrange(at as int, at + p@.len()) == p@),
{
    let n = s.unicode_len();
    let m = p.unicode_len();
    let mut j: usize = 0;
    while j < m
        invariant
            0 <= j <= m,
            m == p@.len(),
            n == s@.len(),
            at + m <= n,
            forall|k: int| 0 <= k < j ==> s@[at + k] == p@[k],
        decreases m - j,
    {
        if s.get_char(at + j) != p.get_char(j) {
            assert(s@.subrange(at as int, at + p@.len())[j as int] != p@[j as int]);
            return false;
        }
        j = j + 1;
    }
    proof {
        assert(s@.subrange(at as int, at + p@.len()) =~= p@);
    }
    true
}

/// Substring search: whether `p` occurs anywhere inside `s`.
pub fn contains_str(s: &str, p: &str) -> (r: bool)
    ensures
        r == contains_seq(s@, p@),
{
    let n = s.unicode_len();
    let m = p.unicode_len();
    if m > n {
        return false;
    }
    if m == 0 {
        proof {
            assert(0 + p@.len() <= s@.len() && s@.subrange(0, 0 + p@.len() as int) =~= p@);
        }
        return true;
    }
    let mut i: usize = 0;
    while i <= n - m
        invariant
            0 <= i <= n - m + 1,
            1 <= m <= n,
            n == s@.len(),
            m == p@.len(),
            forall|ii: int|
                0 <= ii < i ==> #[trigger] s@.subrange(ii, ii + p@.len()) != p@,
        decreases n - i,
    {
        if match_at(s, p, i) {
            return true;
        }
        i = i + 1;
    }
    false
}

/// Prefix test over characters.
pub fn starts_with_str(s: &str, p: &str) -> (r: bool)
    ensures
        r == starts_with_seq(s@, p@),
{
    let n = s.unicode_len();
    let m = p.unicode_len();
    if m > n {
        return false;
    }
    match_at(s, p, 0)
}

/// Character-for-character string equality.
pub fn str_eq_str(a: &str, b: &str) -> (r: bool)
    ensures
        r == (a@ == b@),
{
    let n = a.unicode_len();
    if n != b.unicode_len() {
        return false;
    }
    let mut i: usize = 0;
    while i < n
        invariant
            0 <= i <= n,
            n == a@.len(),
            n == b@.len(),
            forall|k: int| 0 <= k < i ==> a@[k] == b@[k],
        decreases n - i,
    {
        if a.get_char(i) != b.get_char(i) {
            return false;
        }
        i = i + 1;
    }
    proof {
        assert(a@ =~= b@);
    }
    true
}

/// Relies on char::from_u32, which returns the char with scalar value `u`,
/// and None exactly for surrogate code points and values above the Unicode
/// maximum.
#[verifier::external_body]
fn char_from_u32(u: u32) -> (r: Option<char>)
    ensures
        (u <= 0xD7FF || (0xE000 <= u && u <= 0x10FFFF)) ==> r == Some(u as char),
        !(u <= 0xD7FF || (0xE000 <= u && u <= 0x10FFFF)) ==> r is None,
{
    char::from_u32(u)
}

/// The library's lower-case mapping: ASCII letters and the Cyrillic alphabet.
pub open spec fn lower_char_spec(c: char) -> char {
    if 'A' as u32 <= c as u32 && c as u32 <= 'Z' as u32 {
        (c as u32 + 0x20) as char
    } else if 0x410 <= c as u32 && c as u32 <= 0x42F {
        (c as u32 + 0x20) as char
    } else if c as u32 == 0x401 {
        0x451 as char
    } else {
        c
    }
}

/// The library's upper-case mapping: ASCII letters and the Cyrillic alphabet.
pub open spec fn upper_char_spec(c: char) -> char {
    if 'a' as u32 <= c as u32 && c as u32 <= 'z' as u32 {
        (c as u32 - 0x20) as char
    } else if 0x430 <= c as u32 && c as u32 <= 0x44F {
        (c as u32 - 0x20) as char
    } else if c as u32 == 0x451 {
        0x401 as char
    } else {
        c
    }
}

pub open spec fn lower_seq(s: Seq<char>) -> Seq<char> {
    Seq::new(s.len(), |i: int| lower_char_spec(s[i]))
}

pub open spec fn upper_seq(s: Seq<char>) -> Seq<char> {
    Seq::new(s.len(), |i: int| upper_char_spec(s[i]))
}

pub fn lower_char(c: char) -> (r: char)
    ensures
        r == lower_char_spec(c),
{
    let u = c as u32;
    if (0x41 <= u && u <= 0x5A) || (0x410 <= u && u <= 0x42F) {
        match char_from_u32(u + 0x20) {
            Some(l) => l,
            None => c,
        }
    } else if u == 0x401 {
        match char_from_u32(0x451) {
            Some(l) => l,
            None => c,
        }
    } else {
        c
    }
}

pub fn upper_char(c: char) -> (r: char)
    ensures
        r == upper_char_spec(c),
{
    let u = c as u32;
    if (0x61 <= u && u <= 0x7A) || (0x430 <= u && u <= 0x44F) {
        match char_from_u32(u - 0x20) {
            Some(l) => l,
            None => c,
        }
    } else if u == 0x451 {
        match char_from_u32(0x401) {
            Some(l) => l,
            None => c,
        }
    } else {
        c
    }
}

/// Relies on String::push, which appends the given character.
#[verifier::external_body]
pub fn push_char(s: &mut String, c: char)
    ensures
        final(s)@ == old(s)@.push(c),
{
    s.push(c)
}

/// Lower-cases a string under the library's case mapping.
pub fn lower_string(s: &str) -> (r: String)
    ensures
        r@ == lower_seq(s@),
{
    let n = s.unicode_len();
    let mut out = String::new();
    let mut i: usize = 0;
    while i < n
        invariant
            0 <= i <= n,
            n == s@.len(),
            out@ == lower_seq(s@).subrange(0, i as int),
        decreases n - i,
    {
        let c = lower_char(s.get_char(i));
        push_char(&mut out, c);
        proof {
            assert(out@ =~= lower_seq(s@).subrange(0, i + 1));
        }
        i = i + 1;
    }
    proof {
        assert(lower_seq(s@).subrange(0, n as int) =~= lower_seq(s@));
    }
    out
}

/// Upper-cases a string under the library's case mapping.
pub fn upper_string(s: &str) -> (r: String)
    ensures
        r@ == upper_seq(s@),
{
    let n = s.unicode_len();
    let mut out = String::new();
    let mut i: usize = 0;
    while i < n
        invariant
            0 <= i <= n,
            n == s@.len(),
            out@ == upper_seq(s@).subrange(0, i as int),
        decreases n - i,
    {
        let c = upper_char(s.get_char(i));
        push_char(&mut out, c);
        proof {
            assert(out@ =~= upper_seq(s@).subrange(0, i + 1));
        }
        i = i + 1;
    }
    proof {
        assert(upper_seq(s@).subrange(0, n as int) =~= upper_seq(s@));
    }
    out
}

/// The decimal digits of `n`, most significant first.
pub open spec fn dec_digits(n: nat) -> Seq<char>
    decreases n,
{
    if n < 10 {
        seq![((0x30 + n) as u32) as char]
    } else {
        dec_digits(n / 10).push(((0x30 + n % 10) as u32) as char)
    }
}

/// The decimal rendering of `v`, with a leading minus sign when negative.
pub open spec fn dec_string(v: int) -> Seq<char> {
    if v < 0 {
        seq!['-'] + dec_digits((-v) as nat)
    } else {
        dec_digits(v as nat)
    }
}

/// Appends the decimal digits of `n`.
fn push_digits(out: &mut String, n: u64)
    ensures
        final(out)@ == old(out)@ + dec_digits(n as nat),
    decreases n,
{
    if n < 10 {
        let d = (0x30 + n) as u8;
        push_char(out, d as char);
        proof {
            assert(out@ =~= old(out)@ + dec_digits(n as nat));
        }
    } else {
        push_digits(out, n / 10);
        let d = (0x30 + (n % 10)) as u8;
        push_char(out, d as char);
        proof {
            assert(out@ =~= old(out)@ + dec_digits(n as nat));
        }
    }
}

/// Renders `v` in decimal.
pub fn i64_to_string(v: i64) -> (r: String)
    ensures
        r@ == dec_string(v as int),
{
    let mut out = String::new();
    if v < 0 {
        push_char(&mut out, '-');
        let mag = (-(v as i128)) as u64;
        push_digits(&mut out, mag);
        proof {
            assert(out@ =~= dec_string(v as int));
        }
    } else {
        push_digits(&mut out, v as u64);
        proof {
            assert(out@ =~= dec_string(v as int));
        }
    }
    out
}

/// ASCII letters and digits, the alphabet of link codes.
pub open spec fn is_ascii_alnum_char(c: char) -> bool {
    ('0' as u32 <= c as u32 && c as u32 <= '9' as u32) || ('a' as u32 <= c as u32 && c as u32
        <= 'z' as u32) || ('A' as u32 <= c as u32 && c as u32 <= 'Z' as u32)
}

pub fn is_ascii_alnum(c: char) -> (r: bool)
    ensures
        r == is_ascii_alnum_char(c),
{
    let u = c as u32;
    (0x30 <= u && u <= 0x39) || (0x61 <= u && u <= 0x7A) || (0x41 <= u && u <= 0x5A)
}

} // verus!

//! Character classes and small string utilities the engine's grammar is
//! built on: the whitespace that separates words, the characters a variable
//! name may contain, conversion between `&str` and `Vec<char>`, and
//! trimming of trailing whitespace.

use vstd::prelude::*;
use vstd::string::StrSliceExecFns;

verus! {

/// Whitespace that separates words and surrounds operators.
pub open spec fn is_space(c: char) -> bool {
    c == ' ' || c == '\t' || c == '\n' || c == '\r'
}

/// What `char::is_alphanumeric` returns; its result depends on the
/// character alone, so it is given a name here rather than written out.
pub uninterp spec fn alnum(c: char) -> bool;

/// A character that may appear in a variable name (`$NAME`).
pub open spec fn is_name_char(c: char) -> bool {
    alnum(c) || c == '_'
}

/// Relies on `char::is_alphanumeric` of std; `alnum` names its result.
#[verifier::external_body]
pub(crate) fn char_is_alphanumeric(c: char) -> (r: bool)
    ensures
        r == alnum(c),
{
    c.is_alphanumeric()
}

/// Executable form of `is_space`.
pub fn is_space_char(c: char) -> (r: bool)
    ensures
        r == is_space(c),
{
    c == ' ' || c == '\t' || c == '\n' || c == '\r'
}

/// Executable form of `is_name_char`.
pub fn is_name_char_exec(c: char) -> (r: bool)
    ensures
        r == is_name_char(c),
{
    char_is_alphanumeric(c) || c == '_'
}

/// The characters of a string, as a vector.
pub fn str_chars(s: &str) -> (r: Vec<char>)
    ensures
        r@ == s@,
{
    let n = s.unicode_len();
    let mut r: Vec<char> = Vec::new();
    let mut i: usize = 0;
    while i < n
        invariant
            i <= n,
            n == s@.len(),
            r@ == s@.take(i as int),
        decreases n - i,
    {
        r.push(s.get_char(i));
        assert(r@ =~= s@.take(i + 1));
        i = i + 1;
    }
    assert(s@.take(n as int) =~= s@);
    r
}

/// Relies on `String: FromIterator<&char>` of std: collecting characters
/// yields the string of exactly those characters in order.
#[verifier::external_body]
pub(crate) fn chars_to_string(v: &Vec<char>) -> (s: String)
    ensures
        s@ == v@,
{
    v.iter().collect()
}

/// Whether a character vector spells exactly the given string.
pub fn chars_eq_str(v: &Vec<char>, s: &str) -> (r: bool)
    ensures
        r == (v@ == s@),
{
    let n = s.unicode_len();
    if v.len() != n {
        assert(v@ != s@);
        return false;
    }
    let mut i: usize = 0;
    while i < n
        invariant
            i <= n,
            n == s@.len(),
            v@.len() == n,
            forall|k: int| 0 <= k < i ==> v@[k] == s@[k],
        decreases n - i,
    {
        if v[i] != s.get_char(i) {
            assert(v@ != s@);
            return false;
        }
        i = i + 1;
    }
    assert(v@ =~= s@);
    true
}

/// Whether two strings spell the same characters.
pub fn str_eq(a: &str, b: &str) -> (r: bool)
    ensures
        r == (a@ == b@),
{
    let n = a.unicode_len();
    if b.unicode_len() != n {
        assert(a@ != b@);
        return false;
    }
    let mut i: usize = 0;
    while i < n
        invariant
            i <= n,
            n == a@.len(),
            b@.len() == n,
            forall|k: int| 0 <= k < i ==> a@[k] == b@[k],
        decreases n - i,
    {
        if a.get_char(i) != b.get_char(i) {
            assert(a@ != b@);
            return false;
        }
        i = i + 1;
    }
    assert(a@ =~= b@);
    true
}

/// The characters of `v` from `a` (inclusive) to `b` (exclusive).
pub fn sub_chars(v: &Vec<char>, a: usize, b: usize) -> (r: Vec<char>)
    requires
        a <= b <= v@.len(),
    ensures
        r@ == v@.subrange(a as int, b as int),
{
    let mut r: Vec<char> = Vec::new();
    let mut i: usize = a;
    while i < b
        invariant
            a <= i <= b <= v@.len(),
            r@ == v@.subrange(a as int, i as int),
        decreases b - i,
    {
        r.push(v[i]);
        assert(r@ =~= v@.subrange(a as int, i + 1));
        i = i + 1;
    }
    r
}

/// The sequence with trailing whitespace removed.
pub open spec fn trim_end_rec(s: Seq<char>) -> Seq<char>
    decreases s.len(),
{
    if s.len() > 0 && is_space(s.last()) {
        trim_end_rec(s.drop_last())
    } else {
        s
    }
}

proof fn lemma_trim_end_at(s: Seq<char>, b: int)
    requires
        0 <= b <= s.len(),
        forall|k: int| b <= k < s.len() ==> is_space(s[k]),
        b > 0 ==> !is_space(s[b - 1]),
    ensures
        trim_end_rec(s) == s.take(b),
    decreases s.len(),
{
    if s.len() > 0 && is_space(s.last()) {
        assert(b < s.len());
        lemma_trim_end_at(s.drop_last(), b);
        assert(s.drop_last().take(b) =~= s.take(b));
    } else {
        assert(b == s.len());
        assert(s.take(b) =~= s);
    }
}

/// The input without its trailing whitespace.
pub fn trim_end(v: &Vec<char>) -> (r: Vec<char>)
    ensures
        r@ == trim_end_rec(v@),
{
    let mut b: usize = v.len();
    while b > 0 && is_space_char(v[b - 1])
        invariant
            b <= v.len(),
            forall|k: int| b <= k < v@.len() ==> is_space(v@[k]),
        decreases b,
    {
        b = b - 1;
    }
    proof {
        lemma_trim_end_at(v@, b as int);
    }
    let mut r: Vec<char> = Vec::new();
    let mut i: usize = 0;
    while i < b
        invariant
            i <= b <= v@.len(),
            r@ == v@.take(i as int),
        decreases b - i,
    {
        r.push(v[i]);
        assert(r@ =~= v@.take(i + 1));
        i = i + 1;
    }
    r
}

} // verus!

use vstd::prelude::*;

verus! {

/// The characters of `s`, in order.
pub fn chars_of(s: &str) -> (r: Vec<char>)
    ensures
        r@ == s@,
{
    let mut out: Vec<char> = Vec::new();
    for c in it: s.chars()
        invariant
            out@ == it.seq().take(it.index() as int),
            it.seq() == s@,
    {
        out.push(c);
    }
    out
}

/// The code point of `c` after ASCII lower-casing: `'A'..='Z'` map to `'a'..='z'`, every other character
/// (non-ASCII letters included) is unchanged.
pub open spec fn ascii_lower(c: char) -> int {
    let x = c as int;
    if 65 <= x <= 90 {
        x + 32
    } else {
        x
    }
}

/// ASCII case-insensitive equality of two characters.
pub open spec fn eq_ignore_ascii_case(a: char, b: char) -> bool {
    ascii_lower(a) == ascii_lower(b)
}

/// Executable ASCII case-insensitive character equality.
pub fn chars_eq_ignore_ascii_case(a: char, b: char) -> (r: bool)
    ensures
        r == eq_ignore_ascii_case(a, b),
{
    let x: u32 = a as u32;
    let y: u32 = b as u32;
    let lx: u32 = if 65 <= x && x <= 90 {
        x + 32
    } else {
        x
    };
    let ly: u32 = if 65 <= y && y <= 90 {
        y + 32
    } else {
        y
    };
    lx == ly
}

/// Whether `c` has the Unicode `Uppercase` property, as `char::is_uppercase` reports it.
pub uninterp spec fn unicode_is_uppercase(c: char) -> bool;

/// Whether `c` has the Unicode `Lowercase` property, as `char::is_lowercase` reports it.
pub uninterp spec fn unicode_is_lowercase(c: char) -> bool;

/// The Unicode lower-case mapping of a whole string, as `str::to_lowercase` computes it.
pub uninterp spec fn unicode_lowercase(s: Seq<char>) -> Seq<char>;

/// Calls `char::is_uppercase`; the contract only names its result (the Unicode tables are not restated).
#[verifier::external_body]
pub(crate) fn is_uppercase(c: char) -> (r: bool)
    ensures
        r == unicode_is_uppercase(c),
{
    c.is_uppercase()
}

/// Calls `char::is_lowercase`; the contract only names its result (the Unicode tables are not restated).
#[verifier::external_body]
pub(crate) fn is_lowercase(c: char) -> (r: bool)
    ensures
        r == unicode_is_lowercase(c),
{
    c.is_lowercase()
}

/// Calls `str::to_lowercase`; the contract names the full Unicode lower-case mapping of `s` without
/// restating it.
#[verifier::external_body]
pub(crate) fn to_lowercase(s: &str) -> (r: String)
    ensures
        r@ == unicode_lowercase(s@),
{
    s.to_lowercase()
}

/// Calls `String::push`, which appends `c` to the end of `s`.
#[verifier::external_body]
pub(crate) fn push_char(s: &mut String, c: char)
    ensures
        final(s)@ == old(s)@.push(c),
{
    s.push(c)
}

/// Whether `needle` occurs in `hay` as a contiguous run starting at position `i`.
pub open spec fn occurs_at(hay: Seq<char>, needle: Seq<char>, i: int) -> bool {
    0 <= i && i + needle.len() <= hay.len() && hay.subrange(i, i + needle.len()) == needle
}

/// Whether `needle` is a (contiguous) substring of `hay`; the empty needle is a substring of anything.
pub open spec fn contains_substring(hay: Seq<char>, needle: Seq<char>) -> bool {
    exists|i: int| occurs_at(hay, needle, i)
}

/// A substring of a substring is a substring.
pub proof fn lemma_substring_transitive(a: Seq<char>, b: Seq<char>, c: Seq<char>)
    requires
        contains_substring(a, b),
        contains_substring(b, c),
    ensures
        contains_substring(a, c),
{
    let i = choose|i: int| occurs_at(a, b, i);
    let j = choose|j: int| occurs_at(b, c, j);
    assert(a.subrange(i + j, i + j + c.len()) =~= b.subrange(j, j + c.len()));
    assert(occurs_at(a, c, i + j));
}

/// Whether `needle` occurs at position `i` of `hay` (a direct character-by-character comparison).
fn matches_at(hay: &Vec<char>, needle: &Vec<char>, i: usize) -> (r: bool)
    requires
        i + needle.len() <= hay.len(),
    ensures
        r == occurs_at(hay@, needle@, i as int),
{
    let n = needle.len();
    let mut k: usize = 0;
    while k < n
        invariant
            n == needle.len(),
            i + n <= hay.len(),
            k <= n,
            forall|j: int| 0 <= j < k ==> hay@[i + j] == needle@[j],
        decreases n - k,
    {
        if hay[i + k] != needle[k] {
            assert(hay@.subrange(i as int, i + n)[k as int] != needle@[k as int]);
            return false;
        }
        k += 1;
    }
    assert(hay@.subrange(i as int, i + n) =~= needle@);
    true
}

/// Substring search: whether `needle` occurs contiguously in `hay`.
pub fn contains_chars(hay: &Vec<char>, needle: &Vec<char>) -> (r: bool)
    ensures
        r == contains_substring(hay@, needle@),
{
    if needle.len() > hay.len() {
        assert forall|i: int| !occurs_at(hay@, needle@, i) by {}
        return false;
    }
    let last = hay.len() - needle.len();
    let mut i: usize = 0;
    loop
        invariant
            last + needle.len() == hay.len(),
            i <= last,
            forall|j: int| 0 <= j < i ==> !occurs_at(hay@, needle@, j),
        decreases last - i,
    {
        if matches_at(hay, needle, i) {
            assert(occurs_at(hay@, needle@, i as int));
            return true;
        }
        if i == last {
            assert forall|j: int| !occurs_at(hay@, needle@, j) by {
                if 0 <= j <= i {
                }
            }
            return false;
        }
        i += 1;
    }
}

/// Case-insensitive substring test used to filter option labels: both sides go through the Unicode
/// lower-case mapping, then `label` must contain `query`.
pub fn contains_ignore_case(label: &str, query: &str) -> (r: bool)
    ensures
        r == contains_substring(unicode_lowercase(label@), unicode_lowercase(query@)),
{
    let l = to_lowercase(label);
    let q = to_lowercase(query);
    let lc = chars_of(l.as_str());
    let qc = chars_of(q.as_str());
    contains_chars(&lc, &qc)
}

} // verus!

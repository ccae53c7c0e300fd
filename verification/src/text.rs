//! Character-level text utilities: ASCII case folding, substring search,
//! and conversions between `&str`/`String` and `Vec<char>`.

use vstd::prelude::*;

verus! {

/// ASCII lower-casing of a single character; other characters are unchanged.
pub open spec fn lower_char(c: char) -> char {
    if 65 <= c as u32 && c as u32 <= 90 {
        ((c as u32 + 32) as u8) as char
    } else {
        c
    }
}

/// ASCII upper-casing of a single character; other characters are unchanged.
pub open spec fn upper_char(c: char) -> char {
    if 97 <= c as u32 && c as u32 <= 122 {
        ((c as u32 - 32) as u8) as char
    } else {
        c
    }
}

/// ASCII lower-casing of a character sequence.
pub open spec fn lower(s: Seq<char>) -> Seq<char> {
    s.map_values(|c: char| lower_char(c))
}

/// ASCII upper-casing of a character sequence.
pub open spec fn upper(s: Seq<char>) -> Seq<char> {
    s.map_values(|c: char| upper_char(c))
}

/// `needle` occurs in `hay` starting at position `i`.
pub open spec fn matches_at(hay: Seq<char>, needle: Seq<char>, i: int) -> bool {
    0 <= i && i + needle.len() <= hay.len() && hay.subrange(i, i + needle.len()) == needle
}

/// `needle` occurs somewhere in `hay`.
pub open spec fn contains_sub(hay: Seq<char>, needle: Seq<char>) -> bool {
    exists|i: int| matches_at(hay, needle, i)
}

/// Lower-cases one character (ASCII letters only).
pub fn to_lower_char(c: char) -> (r: char)
    ensures
        r == lower_char(c),
{
    let u = c as u32;
    if 65 <= u && u <= 90 {
        ((u + 32) as u8) as char
    } else {
        c
    }
}

/// Upper-cases one character (ASCII letters only).
pub fn to_upper_char(c: char) -> (r: char)
    ensures
        r == upper_char(c),
{
    let u = c as u32;
    if 97 <= u && u <= 122 {
        ((u - 32) as u8) as char
    } else {
        c
    }
}

/// Collects the characters of a string slice into a vector.
pub fn chars_of(s: &str) -> (r: Vec<char>)
    ensures
        r@ == s@,
{
    let n = s.unicode_len();
    let mut r: Vec<char> = Vec::new();
    let mut i: usize = 0;
    while i < n
        invariant
            n == s@.len(),
            i <= n,
            r@ == s@.subrange(0, i as int),
        decreases n - i,
    {
        r.push(s.get_char(i));
        proof {
            assert(r@ =~= s@.subrange(0, i + 1 as int));
        }
        i = i + 1;
    }
    proof {
        assert(r@ =~= s@);
    }
    r
}

/// Lower-cases a character vector (ASCII letters only).
pub fn lower_chars(s: &Vec<char>) -> (r: Vec<char>)
    ensures
        r@ == lower(s@),
{
    let mut r: Vec<char> = Vec::new();
    let mut i: usize = 0;
    while i < s.len()
        invariant
            i <= s@.len(),
            r@ == lower(s@.subrange(0, i as int)),
        decreases s@.len() - i,
    {
        r.push(to_lower_char(s[i]));
        proof {
            assert(r@ =~= lower(s@.subrange(0, i + 1 as int)));
        }
        i = i + 1;
    }
    proof {
        assert(s@.subrange(0, s@.len() as int) =~= s@);
    }
    r
}

/// Appends one character to a `String`.
///
/// Relies on `String::push`: the pushed character is added at the end.
#[verifier::external_body]
pub fn push_char(s: &mut String, c: char)
    ensures
        final(s)@ == old(s)@.push(c),
{
    s.push(c);
}

/// Builds a `String` holding exactly the given characters.
pub fn string_of_chars(v: &Vec<char>) -> (r: String)
    ensures
        r@ == v@,
{
    let mut r = String::new();
    let mut i: usize = 0;
    while i < v.len()
        invariant
            i <= v@.len(),
            r@ == v@.subrange(0, i as int),
        decreases v@.len() - i,
    {
        push_char(&mut r, v[i]);
        proof {
            assert(r@ =~= v@.subrange(0, i + 1 as int));
        }
        i = i + 1;
    }
    proof {
        assert(r@ =~= v@);
    }
    r
}

/// Whether `needle` occurs in `hay` starting exactly at `i`.
pub fn matches_at_exec(hay: &Vec<char>, needle: &Vec<char>, i: usize) -> (r: bool)
    requires
        i + needle@.len() <= hay@.len(),
    ensures
        r == matches_at(hay@, needle@, i as int),
{
    let hlen = hay.len();
    let nlen = needle.len();
    let mut j: usize = 0;
    while j < nlen
        invariant
            hlen == hay@.len(),
            nlen == needle@.len(),
            i + nlen <= hlen,
            j <= nlen,
            forall|k: int| 0 <= k < j ==> hay@[i + k] == needle@[k],
        decreases nlen - j,
    {
        if hay[i + j] != needle[j] {
            proof {
                assert(hay@.subrange(i as int, i + needle@.len())[j as int] == hay@[i + j]);
            }
            return false;
        }
        j = j + 1;
    }
    proof {
        assert(hay@.subrange(i as int, i + needle@.len()) =~= needle@);
    }
    true
}

/// Compares two character vectors for equality of contents.
pub fn eq_chars(a: &Vec<char>, b: &Vec<char>) -> (r: bool)
    ensures
        r == (a@ == b@),
{
    if a.len() != b.len() {
        return false;
    }
    let mut i: usize = 0;
    while i < a.len()
        invariant
            a@.len() == b@.len(),
            i <= a@.len(),
            forall|k: int| 0 <= k < i ==> a@[k] == b@[k],
        decreases a@.len() - i,
    {
        if a[i] != b[i] {
            return false;
        }
        i = i + 1;
    }
    proof {
        assert(a@ =~= b@);
    }
    true
}

/// Copies the characters of `s` in positions `a..b`.
pub fn sub_chars(s: &Vec<char>, a: usize, b: usize) -> (r: Vec<char>)
    requires
        a <= b <= s@.len(),
    ensures
        r@ == s@.subrange(a as int, b as int),
{
    let mut r: Vec<char> = Vec::new();
    let mut i: usize = a;
    while i < b
        invariant
            a <= i <= b <= s@.len(),
            r@ == s@.subrange(a as int, i as int),
        decreases b - i,
    {
        r.push(s[i]);
        proof {
            assert(r@ =~= s@.subrange(a as int, i + 1 as int));
        }
        i = i + 1;
    }
    r
}

/// `sep` occurs in `s` at `i` and nowhere else.
pub open spec fn single_split_at(s: Seq<char>, sep: char, i: int) -> bool {
    &&& 0 <= i < s.len()
    &&& s[i] == sep
    &&& forall|j: int| 0 <= j < s.len() && j != i ==> s[j] != sep
}

/// The two parts around `sep`, defined exactly when `sep` occurs once.
pub open spec fn split_once_exactly(s: Seq<char>, sep: char) -> Option<(Seq<char>, Seq<char>)> {
    if exists|i: int| single_split_at(s, sep, i) {
        let i = choose|i: int| single_split_at(s, sep, i);
        Some((s.subrange(0, i), s.subrange(i + 1, s.len() as int)))
    } else {
        None
    }
}

/// Splits `s` at its unique occurrence of `sep`; `None` when `sep` occurs
/// zero times or more than once.
pub fn split_single(s: &Vec<char>, sep: char) -> (r: Option<(Vec<char>, Vec<char>)>)
    ensures
        r matches Some(p) ==> split_once_exactly(s@, sep) == Some((p.0@, p.1@)),
        r is None ==> split_once_exactly(s@, sep) is None,
{
    let len = s.len();
    let mut pos: usize = 0;
    let mut found = false;
    let mut i: usize = 0;
    while i < len
        invariant
            len == s@.len(),
            i <= len,
            found ==> pos < i && s@[pos as int] == sep && (forall|j: int|
                0 <= j < i && j != pos ==> s@[j] != sep),
            !found ==> (forall|j: int| 0 <= j < i ==> s@[j] != sep),
        decreases len - i,
    {
        if s[i] == sep {
            if found {
                proof {
                    assert(forall|k: int| single_split_at(s@, sep, k) ==> k == pos || k == i);
                    assert(!single_split_at(s@, sep, pos as int));
                }
                return None;
            }
            pos = i;
            found = true;
        }
        i = i + 1;
    }
    if !found {
        proof {
            assert(forall|k: int| !single_split_at(s@, sep, k));
        }
        return None;
    }
    proof {
        assert(single_split_at(s@, sep, pos as int));
        let w = choose|k: int| single_split_at(s@, sep, k);
        assert(s@[pos as int] == sep);
        assert(w == pos);
    }
    let mut left: Vec<char> = Vec::new();
    let mut j: usize = 0;
    while j < pos
        invariant
            pos < s@.len(),
            j <= pos,
            left@ == s@.subrange(0, j as int),
        decreases pos - j,
    {
        left.push(s[j]);
        proof {
            assert(left@ =~= s@.subrange(0, j + 1 as int));
        }
        j = j + 1;
    }
    let mut right: Vec<char> = Vec::new();
    let mut k: usize = pos + 1;
    while k < len
        invariant
            pos < s@.len(),
            len == s@.len(),
            pos + 1 <= k <= len,
            right@ == s@.subrange(pos + 1 as int, k as int),
        decreases len - k,
    {
        right.push(s[k]);
        proof {
            assert(right@ =~= s@.subrange(pos + 1 as int, k + 1 as int));
        }
        k = k + 1;
    }
    Some((left, right))
}

/// Whether `needle` occurs anywhere in `hay`.
pub fn contains_chars(hay: &Vec<char>, needle: &Vec<char>) -> (r: bool)
    ensures
        r == contains_sub(hay@, needle@),
{
    if needle.len() > hay.len() {
        proof {
            assert(forall|i: int| !matches_at(hay@, needle@, i));
        }
        return false;
    }
    if needle.len() == 0 {
        proof {
            assert(hay@.subrange(0, 0) =~= needle@);
            assert(matches_at(hay@, needle@, 0));
        }
        return true;
    }
    let hlen = hay.len();
    let last_start = hlen - needle.len();
    let mut i: usize = 0;
    while i <= last_start
        invariant
            hlen == hay@.len(),
            0 < needle@.len() <= hay@.len(),
            last_start == hay@.len() - needle@.len(),
            i <= last_start + 1,
            forall|k: int| 0 <= k < i ==> !matches_at(hay@, needle@, k),
        decreases last_start + 1 - i,
    {
        if matches_at_exec(hay, needle, i) {
            return true;
        }
        i = i + 1;
    }
    proof {
        assert(forall|k: int| matches_at(hay@, needle@, k) ==> 0 <= k <= last_start);
    }
    false
}

/// A whitespace character of the ASCII set.
pub open spec fn is_space_char(c: char) -> bool {
    c == ' ' || c == '\t' || c == '\n' || c == '\r' || c as u32 == 11 || c as u32 == 12
}

/// Length of the maximal whitespace run starting at `i`.
pub open spec fn space_run(s: Seq<char>, i: int) -> nat
    decreases s.len() - i when i >= 0
{
    if i < 0 || i >= s.len() || !is_space_char(s[i]) {
        0
    } else {
        1 + space_run(s, i + 1)
    }
}

/// Tests a character for whitespace.
pub fn space_char(c: char) -> (r: bool)
    ensures
        r == is_space_char(c),
{
    let u = c as u32;
    c == ' ' || c == '\t' || c == '\n' || c == '\r' || u == 11 || u == 12
}

/// Computes the length of the whitespace run starting at `i`.
pub fn space_run_exec(s: &Vec<char>, i: usize) -> (r: usize)
    requires
        i <= s@.len(),
    ensures
        r == space_run(s@, i as int),
        i + r <= s@.len(),
{
    let len = s.len();
    let mut j: usize = i;
    while j < len && space_char(s[j])
        invariant
            len == s@.len(),
            i <= j <= len,
            space_run(s@, i as int) == j - i + space_run(s@, j as int),
        decreases len - j,
    {
        j = j + 1;
    }
    proof {
        assert(space_run(s@, j as int) == 0);
    }
    j - i
}

/// Length of the maximal whitespace run ending just before `i`, scanning
/// backwards.
pub open spec fn space_run_back(s: Seq<char>, i: int) -> nat
    decreases i when i <= s.len()
{
    if i <= 0 || i > s.len() || !is_space_char(s[i - 1]) {
        0
    } else {
        1 + space_run_back(s, i - 1)
    }
}

/// The text with leading and trailing whitespace removed.
pub open spec fn trim_spec(s: Seq<char>) -> Seq<char> {
    let lead = space_run(s, 0) as int;
    if lead == s.len() {
        Seq::empty()
    } else {
        s.subrange(lead, s.len() - space_run_back(s, s.len() as int))
    }
}

/// Removes leading and trailing whitespace.
pub fn trim_chars(s: &Vec<char>) -> (r: Vec<char>)
    ensures
        r@ == trim_spec(s@),
{
    let len = s.len();
    let lead = space_run_exec(s, 0);
    if lead == len {
        let r: Vec<char> = Vec::new();
        proof {
            assert(r@ =~= trim_spec(s@));
        }
        return r;
    }
    let mut back: usize = len;
    while back > 0 && space_char(s[back - 1])
        invariant
            len == s@.len(),
            back <= len,
            space_run_back(s@, len as int) == len - back + space_run_back(s@, back as int),
        decreases back,
    {
        back = back - 1;
    }
    proof {
        assert(space_run_back(s@, back as int) == 0);
    }
    // A non-space character stands at `lead`, so the trailing run stops
    // before it.
    proof {
        lemma_space_run_stops(s@, 0);
        assert(!is_space_char(s@[lead as int]));
        if back <= lead {
            assert(space_run_back(s@, len as int) == len - back + space_run_back(s@, back as int));
            lemma_space_run_back_skips_nonspace(s@, lead as int, len as int);
            assert(false);
        }
    }
    let mut r: Vec<char> = Vec::new();
    let mut i: usize = lead;
    while i < back
        invariant
            lead <= i <= back <= s@.len(),
            r@ == s@.subrange(lead as int, i as int),
        decreases back - i,
    {
        r.push(s[i]);
        proof {
            assert(r@ =~= s@.subrange(lead as int, i + 1 as int));
        }
        i = i + 1;
    }
    proof {
        assert(r@ =~= trim_spec(s@));
    }
    r
}

/// A forward whitespace run stops at a non-space character.
proof fn lemma_space_run_stops(s: Seq<char>, i: int)
    requires
        0 <= i <= s.len(),
    ensures
        i + space_run(s, i) <= s.len(),
        i + space_run(s, i) < s.len() ==> !is_space_char(s[i + space_run(s, i)]),
    decreases s.len() - i,
{
    if i < s.len() && is_space_char(s[i]) {
        lemma_space_run_stops(s, i + 1);
    }
}

/// A backward whitespace run never reaches past a non-space character.
proof fn lemma_space_run_back_skips_nonspace(s: Seq<char>, p: int, i: int)
    requires
        0 <= p < i <= s.len(),
        !is_space_char(s[p]),
    ensures
        space_run_back(s, i) < i - p,
    decreases i,
{
    if is_space_char(s[i - 1]) {
        lemma_space_run_back_skips_nonspace(s, p, i - 1);
    }
}

/// `needle` occurs at `i`, and nowhere in `from..i`.
pub open spec fn first_match_from_at(s: Seq<char>, needle: Seq<char>, from: int, i: int) -> bool {
    &&& from <= i
    &&& matches_at(s, needle, i)
    &&& forall|j: int| from <= j < i ==> !matches_at(s, needle, j)
}

/// The first occurrence of `needle` at or after `from`, if any.
pub open spec fn first_match_from(s: Seq<char>, needle: Seq<char>, from: int) -> Option<int> {
    if exists|i: int| first_match_from_at(s, needle, from, i) {
        Some(choose|i: int| first_match_from_at(s, needle, from, i))
    } else {
        None
    }
}

/// Finds the first occurrence of `needle` at or after `from`.
pub fn find_from(hay: &Vec<char>, needle: &Vec<char>, from: usize) -> (r: Option<usize>)
    requires
        needle@.len() >= 1,
    ensures
        r matches Some(i) ==> first_match_from(hay@, needle@, from as int) == Some(i as int)
            && from <= i && i + needle@.len() <= hay@.len(),
        r is None ==> first_match_from(hay@, needle@, from as int) is None,
{
    let hlen = hay.len();
    let nlen = needle.len();
    if from > hlen || nlen > hlen - from {
        proof {
            assert(forall|i: int| !first_match_from_at(hay@, needle@, from as int, i));
        }
        return None;
    }
    let last_start = hlen - nlen;
    let mut i: usize = from;
    while i <= last_start
        invariant
            hlen == hay@.len(),
            nlen == needle@.len(),
            1 <= nlen,
            from <= i <= last_start + 1,
            last_start == hlen - nlen,
            forall|j: int| from <= j < i ==> !matches_at(hay@, needle@, j),
        decreases last_start + 1 - i,
    {
        if matches_at_exec(hay, needle, i) {
            proof {
                assert(first_match_from_at(hay@, needle@, from as int, i as int));
                let w = choose|k: int| first_match_from_at(hay@, needle@, from as int, k);
                if w < i {
                    assert(!matches_at(hay@, needle@, w));
                }
                if w > i {
                    assert(!matches_at(hay@, needle@, i as int));
                }
                assert(w == i);
            }
            return Some(i);
        }
        i = i + 1;
    }
    proof {
        assert(forall|j: int| matches_at(hay@, needle@, j) ==> j + nlen <= hlen);
        assert(forall|j: int| !first_match_from_at(hay@, needle@, from as int, j));
    }
    None
}

} // verus!

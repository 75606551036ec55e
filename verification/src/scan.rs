//! Character scans over URL-like strings: locating the scheme separator,
//! the first occurrence of a character, and the last occurrence within a
//! region. These are the primitives that canonicalization is built from.

use vstd::prelude::*;

verus! {

/// The three characters of a scheme separator, `"://"`, stand at index `i`.
pub open spec fn sep_at(s: Seq<char>, i: int) -> bool {
    &&& 0 <= i
    &&& i + 3 <= s.len()
    &&& s[i] == ':'
    &&& s[i + 1] == '/'
    &&& s[i + 2] == '/'
}

/// The least index at or after `i` where a scheme separator stands.
pub open spec fn sep_from(s: Seq<char>, i: int) -> Option<int>
    decreases s.len() - i,
{
    if i + 3 > s.len() {
        None
    } else if sep_at(s, i) {
        Some(i)
    } else {
        sep_from(s, i + 1)
    }
}

/// What a `sep_from` result means, position by position.
pub proof fn lemma_sep_from(s: Seq<char>, i: int)
    requires
        0 <= i,
    ensures
        match sep_from(s, i) {
            Some(k) => i <= k && sep_at(s, k) && (forall|j: int| i <= j < k ==> !sep_at(s, j)),
            None => forall|j: int| i <= j ==> !sep_at(s, j),
        },
    decreases s.len() - i,
{
    if i + 3 > s.len() {
        assert forall|j: int| i <= j implies !sep_at(s, j) by {}
    } else if sep_at(s, i) {
    } else {
        lemma_sep_from(s, i + 1);
    }
}

/// A separator at `k`, with none earlier, is what `sep_from` finds.
pub proof fn lemma_sep_from_exact(s: Seq<char>, i: int, k: int)
    requires
        0 <= i <= k,
        sep_at(s, k),
        forall|j: int| i <= j < k ==> !sep_at(s, j),
    ensures
        sep_from(s, i) == Some(k),
    decreases s.len() - i,
{
    if i == k {
    } else {
        lemma_sep_from_exact(s, i + 1, k);
    }
}

/// No separator anywhere at or after `i` means `sep_from` finds none.
pub proof fn lemma_sep_from_none(s: Seq<char>, i: int)
    requires
        0 <= i,
        forall|j: int| i <= j ==> !sep_at(s, j),
    ensures
        sep_from(s, i) is None,
    decreases s.len() - i,
{
    if i + 3 > s.len() {
    } else {
        lemma_sep_from_none(s, i + 1);
    }
}

/// The least index at or after `i` holding the character `c`.
pub open spec fn char_from(s: Seq<char>, i: int, c: char) -> Option<int>
    decreases s.len() - i,
{
    if i >= s.len() {
        None
    } else if s[i] == c {
        Some(i)
    } else {
        char_from(s, i + 1, c)
    }
}

/// What a `char_from` result means, position by position.
pub proof fn lemma_char_from(s: Seq<char>, i: int, c: char)
    requires
        0 <= i,
    ensures
        match char_from(s, i, c) {
            Some(k) => i <= k < s.len() && s[k] == c && (forall|j: int| i <= j < k ==> s[j] != c),
            None => forall|j: int| i <= j < s.len() ==> s[j] != c,
        },
    decreases s.len() - i,
{
    if i >= s.len() {
    } else if s[i] == c {
    } else {
        lemma_char_from(s, i + 1, c);
    }
}

/// An occurrence at `k`, with none earlier, is what `char_from` finds.
pub proof fn lemma_char_from_exact(s: Seq<char>, i: int, c: char, k: int)
    requires
        0 <= i <= k < s.len(),
        s[k] == c,
        forall|j: int| i <= j < k ==> s[j] != c,
    ensures
        char_from(s, i, c) == Some(k),
    decreases s.len() - i,
{
    if i == k {
    } else {
        lemma_char_from_exact(s, i + 1, c, k);
    }
}

/// No occurrence at or after `i` means `char_from` finds none.
pub proof fn lemma_char_from_none(s: Seq<char>, i: int, c: char)
    requires
        0 <= i,
        forall|j: int| i <= j < s.len() ==> s[j] != c,
    ensures
        char_from(s, i, c) is None,
    decreases s.len() - i,
{
    if i >= s.len() {
    } else {
        lemma_char_from_none(s, i + 1, c);
    }
}

/// The greatest index in `[a, j)` holding the character `c`.
pub open spec fn char_back(s: Seq<char>, a: int, j: int, c: char) -> Option<int>
    decreases j - a,
{
    if j <= a {
        None
    } else if s[j - 1] == c {
        Some(j - 1)
    } else {
        char_back(s, a, j - 1, c)
    }
}

/// What a `char_back` result means, position by position.
pub proof fn lemma_char_back(s: Seq<char>, a: int, j: int, c: char)
    ensures
        match char_back(s, a, j, c) {
            Some(k) => a <= k < j && s[k] == c && (forall|l: int| k < l < j ==> s[l] != c),
            None => forall|l: int| a <= l < j ==> s[l] != c,
        },
    decreases j - a,
{
    if j <= a {
    } else if s[j - 1] == c {
    } else {
        lemma_char_back(s, a, j - 1, c);
    }
}

/// An occurrence at `k`, with none later in the region, is what `char_back` finds.
pub proof fn lemma_char_back_exact(s: Seq<char>, a: int, j: int, c: char, k: int)
    requires
        a <= k < j,
        s[k] == c,
        forall|l: int| k < l < j ==> s[l] != c,
    ensures
        char_back(s, a, j, c) == Some(k),
    decreases j - a,
{
    if j - 1 == k {
    } else {
        lemma_char_back_exact(s, a, j - 1, c, k);
    }
}

/// No occurrence in `[a, j)` means `char_back` finds none.
pub proof fn lemma_char_back_none(s: Seq<char>, a: int, j: int, c: char)
    requires
        forall|l: int| a <= l < j ==> s[l] != c,
    ensures
        char_back(s, a, j, c) is None,
    decreases j - a,
{
    if j <= a {
    } else {
        lemma_char_back_none(s, a, j - 1, c);
    }
}

/// Finds the first scheme separator `"://"` of `s`.
pub fn find_sep(s: &str) -> (r: Option<usize>)
    ensures
        match r {
            Some(k) => sep_from(s@, 0) == Some(k as int),
            None => sep_from(s@, 0) is None,
        },
{
    let n = s.unicode_len();
    if n < 3 {
        return None;
    }
    let mut i: usize = 0;
    while i <= n - 3
        invariant
            3 <= n == s@.len(),
            0 <= i <= n - 2,
            sep_from(s@, 0) == sep_from(s@, i as int),
        decreases n - i,
    {
        if s.get_char(i) == ':' && s.get_char(i + 1) == '/' && s.get_char(i + 2) == '/' {
            return Some(i);
        }
        i = i + 1;
    }
    None
}

/// Finds the first `c` at or after `from`.
pub fn find_char(s: &str, from: usize, c: char) -> (r: Option<usize>)
    requires
        from <= s@.len(),
    ensures
        match r {
            Some(k) => char_from(s@, from as int, c) == Some(k as int),
            None => char_from(s@, from as int, c) is None,
        },
{
    let n = s.unicode_len();
    let mut i: usize = from;
    while i < n
        invariant
            from <= i <= n == s@.len(),
            char_from(s@, from as int, c) == char_from(s@, i as int, c),
        decreases n - i,
    {
        if s.get_char(i) == c {
            return Some(i);
        }
        i = i + 1;
    }
    None
}

/// Finds the last `c` in the region `[a, j)`.
pub fn find_char_back(s: &str, a: usize, j: usize, c: char) -> (r: Option<usize>)
    requires
        j <= s@.len(),
    ensures
        match r {
            Some(k) => char_back(s@, a as int, j as int, c) == Some(k as int),
            None => char_back(s@, a as int, j as int, c) is None,
        },
{
    let mut e: usize = j;
    while e > a
        invariant
            e <= j <= s@.len(),
            char_back(s@, a as int, j as int, c) == char_back(s@, a as int, e as int, c),
        decreases e,
    {
        if s.get_char(e - 1) == c {
            return Some(e - 1);
        }
        e = e - 1;
    }
    None
}

} // verus!

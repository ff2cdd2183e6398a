//! Character-level text primitives: substring containment, first-occurrence
//! search, and splitting on a separator character.
//!
//! All contracts are stated over `Seq<char>` views, so the rest of the
//! library can speak of what a string holds rather than how it was scanned.

use vstd::prelude::*;
use vstd::string::StrSliceExecFns;
use vstd::string::StringExecFns;

verus! {

/// The sequence of views of a sequence of strings.
pub open spec fn str_views(v: Seq<String>) -> Seq<Seq<char>> {
    v.map_values(|p: String| p@)
}

/// `n` occurs in `h` starting exactly at index `i`.
pub open spec fn contains_at(h: Seq<char>, n: Seq<char>, i: int) -> bool {
    &&& 0 <= i
    &&& i + n.len() <= h.len()
    &&& h.subrange(i, i + n.len() as int) == n
}

/// `n` occurs somewhere in `h` (substring containment).
pub open spec fn contains_seq(h: Seq<char>, n: Seq<char>) -> bool {
    exists|i: int| contains_at(h, n, i)
}

/// Index of the first occurrence of `n` in `h` at or after `from`.
pub open spec fn find_from(h: Seq<char>, n: Seq<char>, from: int) -> Option<int>
    decreases h.len() + 1 - from,
{
    if from >= 0 && from + n.len() <= h.len() {
        if contains_at(h, n, from) {
            Some(from)
        } else {
            find_from(h, n, from + 1)
        }
    } else {
        None
    }
}

/// What `find_from` returns: the first occurrence at or after `from`, when
/// there is one, and nothing otherwise.
pub proof fn lemma_find_from(h: Seq<char>, n: Seq<char>, from: int)
    requires
        from >= 0,
    ensures
        match find_from(h, n, from) {
            Some(i) => {
                &&& from <= i
                &&& contains_at(h, n, i)
                &&& forall|j: int| from <= j < i ==> !contains_at(h, n, j)
            },
            None => forall|j: int| from <= j ==> !contains_at(h, n, j),
        },
    decreases h.len() + 1 - from,
{
    if from + n.len() <= h.len() {
        if !contains_at(h, n, from) {
            lemma_find_from(h, n, from + 1);
        }
    }
}

/// Containment is exactly "the search from the start finds something".
pub proof fn lemma_contains_iff_found(h: Seq<char>, n: Seq<char>)
    ensures
        contains_seq(h, n) <==> find_from(h, n, 0) is Some,
{
    lemma_find_from(h, n, 0);
    if contains_seq(h, n) {
        let i = choose|i: int| contains_at(h, n, i);
        if find_from(h, n, 0) is None {
            assert(!contains_at(h, n, i));
        }
    }
}

/// Checks whether `n` occurs in `h` starting exactly at `i`.
pub(crate) fn match_at(h: &str, n: &str, i: usize) -> (r: bool)
    requires
        i + n@.len() <= h@.len(),
    ensures
        r == contains_at(h@, n@, i as int),
{
    let nlen = n.unicode_len();
    let hlen = h.unicode_len();
    let mut j: usize = 0;
    while j < nlen
        invariant
            j <= nlen,
            nlen == n@.len(),
            hlen == h@.len(),
            i + nlen <= hlen,
            forall|k: int| 0 <= k < j ==> h@[i + k] == n@[k],
        decreases nlen - j,
    {
        if h.get_char(i + j) != n.get_char(j) {
            assert(!contains_at(h@, n@, i as int)) by {
                if contains_at(h@, n@, i as int) {
                    assert(h@.subrange(i as int, i + n@.len() as int)[j as int] == h@[i + j]);
                }
            }
            return false;
        }
        j += 1;
    }
    assert(h@.subrange(i as int, i + n@.len() as int) =~= n@);
    true
}

/// First occurrence of `n` in `h` at or after `from`.
pub fn find_substring_from(h: &str, n: &str, from: usize) -> (r: Option<usize>)
    ensures
        match r {
            Some(i) => Some(i as int) == find_from(h@, n@, from as int),
            None => find_from(h@, n@, from as int) is None,
        },
{
    let hlen = h.unicode_len();
    let nlen = n.unicode_len();
    if nlen > hlen || from > hlen - nlen {
        assert(find_from(h@, n@, from as int) is None);
        return None;
    }
    let mut i = from;
    loop
        invariant
            from <= i,
            nlen <= hlen,
            i <= hlen - nlen,
            hlen == h@.len(),
            nlen == n@.len(),
            find_from(h@, n@, from as int) == find_from(h@, n@, i as int),
        decreases hlen - i,
    {
        if match_at(h, n, i) {
            return Some(i);
        }
        if i == hlen - nlen {
            assert(find_from(h@, n@, i as int) == find_from(h@, n@, i + 1));
            assert(find_from(h@, n@, i + 1) is None);
            return None;
        }
        i += 1;
    }
}

/// Whether `n` occurs anywhere in `h`.
pub fn contains_substring(h: &str, n: &str) -> (r: bool)
    ensures
        r == contains_seq(h@, n@),
{
    let found = find_substring_from(h, n, 0);
    proof {
        lemma_contains_iff_found(h@, n@);
    }
    found.is_some()
}

/// Character-for-character string equality.
pub fn str_eq(a: &str, b: &str) -> (r: bool)
    ensures
        r == (a@ == b@),
{
    let alen = a.unicode_len();
    let blen = b.unicode_len();
    if alen != blen {
        assert(a@ != b@);
        return false;
    }
    let mut i: usize = 0;
    while i < alen
        invariant
            i <= alen,
            alen == a@.len(),
            alen == b@.len(),
            forall|k: int| 0 <= k < i ==> a@[k] == b@[k],
        decreases alen - i,
    {
        if a.get_char(i) != b.get_char(i) {
            return false;
        }
        i += 1;
    }
    assert(a@ =~= b@);
    true
}

/// Index of the first occurrence of the character `c` at or after `from`.
pub open spec fn find_char_from(s: Seq<char>, c: char, from: int) -> Option<int>
    decreases s.len() - from,
{
    if 0 <= from < s.len() {
        if s[from] == c {
            Some(from)
        } else {
            find_char_from(s, c, from + 1)
        }
    } else {
        None
    }
}

/// What `find_char_from` returns.
pub proof fn lemma_find_char_from(s: Seq<char>, c: char, from: int)
    requires
        from >= 0,
    ensures
        match find_char_from(s, c, from) {
            Some(i) => {
                &&& from <= i < s.len()
                &&& s[i] == c
                &&& forall|j: int| from <= j < i ==> s[j] != c
            },
            None => forall|j: int| from <= j < s.len() ==> s[j] != c,
        },
    decreases s.len() - from,
{
    if 0 <= from < s.len() && s[from] != c {
        lemma_find_char_from(s, c, from + 1);
    }
}

/// The pieces of `s` between occurrences of the separator `c`, in order.
/// There is always at least one piece; separators at the ends or next to
/// each other give empty pieces, as `str::split` does.
pub open spec fn split_spec(s: Seq<char>, c: char) -> Seq<Seq<char>>
    decreases s.len(),
{
    match find_char_from(s, c, 0) {
        None => seq![s],
        Some(i) => {
            if 0 <= i < s.len() {
                seq![s.subrange(0, i)] + split_spec(s.subrange(i + 1, s.len() as int), c)
            } else {
                seq![s]
            }
        },
    }
}

/// Splitting yields at least one piece.
pub proof fn lemma_split_len(s: Seq<char>, c: char)
    ensures
        split_spec(s, c).len() >= 1,
    decreases s.len(),
{
    match find_char_from(s, c, 0) {
        None => {},
        Some(i) => {
            lemma_find_char_from(s, c, 0);
            lemma_split_len(s.subrange(i + 1, s.len() as int), c);
        },
    }
}

/// Finds the first occurrence of the character `c` at or after `from`.
pub(crate) fn find_char(s: &str, c: char, from: usize) -> (r: Option<usize>)
    ensures
        match r {
            Some(i) => Some(i as int) == find_char_from(s@, c, from as int),
            None => find_char_from(s@, c, from as int) is None,
        },
{
    let slen = s.unicode_len();
    let mut i = from;
    while i < slen
        invariant
            from <= i,
            slen == s@.len(),
            find_char_from(s@, c, from as int) == find_char_from(s@, c, i as int),
        decreases slen - i,
    {
        if s.get_char(i) == c {
            return Some(i);
        }
        i += 1;
    }
    None
}

/// Splits `s` on the separator character `c`, as `str::split` does.
pub fn split_char(s: &str, c: char) -> (r: Vec<String>)
    ensures
        str_views(r@) == split_spec(s@, c),
        r@.len() >= 1,
    decreases s@.len(),
{
    let slen = s.unicode_len();
    match find_char(s, c, 0) {
        None => {
            let mut v: Vec<String> = Vec::new();
            v.push(String::from_str(s));
            assert(str_views(v@) =~= seq![s@]);
            v
        },
        Some(i) => {
            proof {
                lemma_find_char_from(s@, c, 0);
            }
            let head = s.substring_char(0, i);
            let tail = s.substring_char(i + 1, slen);
            let mut rest = split_char(tail, c);
            let ghost rest_pieces = rest@;
            let mut v: Vec<String> = Vec::new();
            v.push(String::from_str(head));
            v.append(&mut rest);
            assert(str_views(v@) =~= seq![head@] + str_views(rest_pieces));
            assert(str_views(v@) =~= seq![s@.subrange(0, i as int)] + split_spec(
                s@.subrange(i + 1, s@.len() as int),
                c,
            ));
            v
        },
    }
}

} // verus!

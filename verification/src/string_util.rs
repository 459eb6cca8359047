use vstd::prelude::*;

verus! {

/// Relies on std's String::push: it appends exactly the given character to the
/// end of the string.
pub assume_specification[ String::push ](s: &mut String, ch: char)
    ensures
        final(s)@ == old(s)@.push(ch),
;

/// `sep` occurs in `s` starting at index `i`.
pub open spec fn match_at(s: Seq<char>, sep: Seq<char>, i: int) -> bool {
    &&& 0 <= i
    &&& i + sep.len() <= s.len()
    &&& forall|k: int| 0 <= k < sep.len() ==> s[i + k] == #[trigger] sep[k]
}

/// `sep` occurs somewhere in `s`.
pub open spec fn has_match(s: Seq<char>, sep: Seq<char>) -> bool {
    exists|i: int| match_at(s, sep, i)
}

/// The character `c` occurs somewhere in `s`.
pub open spec fn has_char(s: Seq<char>, c: char) -> bool {
    exists|i: int| 0 <= i < s.len() && s[i] == c
}

/// Index of the first occurrence of `sep` in `s` at or after position `i`,
/// or `None` when `sep` occurs nowhere at or after `i`.
pub open spec fn find_from(s: Seq<char>, sep: Seq<char>, i: int) -> Option<int>
    decreases s.len() - i,
{
    if i < 0 || i + sep.len() > s.len() {
        None
    } else if match_at(s, sep, i) {
        Some(i)
    } else if i < s.len() {
        find_from(s, sep, i + 1)
    } else {
        None
    }
}

/// Splitting `s` at the first occurrence of `sep`: the part before the
/// occurrence and the part after it, or `(s, "")` when `sep` does not occur.
pub open spec fn split_spec(s: Seq<char>, sep: Seq<char>) -> (Seq<char>, Seq<char>) {
    match find_from(s, sep, 0) {
        Some(i) => (s.subrange(0, i), s.subrange(i + sep.len(), s.len() as int)),
        None => (s, Seq::empty()),
    }
}

/// Everything strictly before the first occurrence of `c` in `s` (all of `s`
/// when `c` does not occur).
pub open spec fn remove_trailing_spec(s: Seq<char>, c: char) -> Seq<char> {
    match find_from(s, seq![c], 0) {
        Some(i) => s.subrange(0, i),
        None => s,
    }
}

/// `s` unchanged when it already starts with `p`, otherwise `p + s`.
pub open spec fn prepend_if_missing_spec(s: Seq<char>, p: Seq<char>) -> Seq<char> {
    if match_at(s, p, 0) {
        s
    } else {
        p + s
    }
}

/// An occurrence of the one-character separator `seq![c]` at `j` is exactly an
/// occurrence of the character `c` at `j`.
pub proof fn lemma_match_at_single(s: Seq<char>, c: char, j: int)
    ensures
        match_at(s, seq![c], j) <==> (0 <= j < s.len() && s[j] == c),
{
    assert(seq![c][0] == c);
    if 0 <= j < s.len() && s[j] == c {
        assert forall|k: int| 0 <= k < seq![c].len() implies s[j + k] == #[trigger] seq![c][k] by {
            assert(k == 0);
        }
    }
    if match_at(s, seq![c], j) {
        assert(s[j + 0] == seq![c][0]);
    }
}

/// When `find_from(s, sep, i)` finds nothing, no occurrence starts at or after `i`.
pub proof fn lemma_find_from_none(s: Seq<char>, sep: Seq<char>, i: int, j: int)
    requires
        0 <= i <= j,
        find_from(s, sep, i) is None,
    ensures
        !match_at(s, sep, j),
    decreases s.len() - i,
{
    if i + sep.len() > s.len() {
        assert(j + sep.len() > s.len());
    } else if i < s.len() && j > i {
        lemma_find_from_none(s, sep, i + 1, j);
    }
}

/// What `find_from` returns is an occurrence, and the first one at or after `i`.
pub proof fn lemma_find_from_some(s: Seq<char>, sep: Seq<char>, i: int, k: int)
    requires
        0 <= i,
        find_from(s, sep, i) == Some(k),
    ensures
        i <= k,
        match_at(s, sep, k),
        forall|j: int| i <= j < k ==> !match_at(s, sep, j),
    decreases s.len() - i,
{
    if i + sep.len() > s.len() {
    } else if match_at(s, sep, i) {
    } else if i < s.len() {
        lemma_find_from_some(s, sep, i + 1, k);
    }
}

/// Conversely: the first occurrence at or after `i` is what `find_from` returns.
pub proof fn lemma_find_from_first(s: Seq<char>, sep: Seq<char>, i: int, k: int)
    requires
        0 <= i <= k,
        match_at(s, sep, k),
        forall|j: int| i <= j < k ==> !match_at(s, sep, j),
    ensures
        find_from(s, sep, i) == Some(k),
    decreases k - i,
{
    if i < k {
        lemma_find_from_first(s, sep, i + 1, k);
    }
}

/// When `sep` occurs nowhere in `s`, `find_from` finds nothing.
pub proof fn lemma_find_from_none_of_no_match(s: Seq<char>, sep: Seq<char>)
    requires
        !has_match(s, sep),
    ensures
        find_from(s, sep, 0) is None,
{
    if find_from(s, sep, 0) is Some {
        let k = find_from(s, sep, 0)->0;
        lemma_find_from_some(s, sep, 0, k);
    }
}

/// Law: if the separator does not occur in `s`, the split yields `(s, "")`.
pub proof fn lemma_split_when_absent(s: Seq<char>, sep: Seq<char>)
    requires
        !has_match(s, sep),
    ensures
        split_spec(s, sep).0 == s,
        split_spec(s, sep).1 == Seq::<char>::empty(),
{
    lemma_find_from_none_of_no_match(s, sep);
}

/// Law: if the first occurrence of the separator in `s` is at index `i`, the
/// split yields the prefix of `s` before `i` and the suffix after `i + sep.len()`.
pub proof fn lemma_split_at_first(s: Seq<char>, sep: Seq<char>, i: int)
    requires
        match_at(s, sep, i),
        forall|j: int| 0 <= j < i ==> !match_at(s, sep, j),
    ensures
        split_spec(s, sep).0 == s.subrange(0, i),
        split_spec(s, sep).1 == s.subrange(i + sep.len(), s.len() as int),
{
    lemma_find_from_first(s, sep, 0, i);
}

/// A one-character separator occurs in `s` exactly when the character does.
pub proof fn lemma_has_match_single(s: Seq<char>, c: char)
    ensures
        has_match(s, seq![c]) <==> has_char(s, c),
{
    if has_match(s, seq![c]) {
        let i = choose|i: int| match_at(s, seq![c], i);
        lemma_match_at_single(s, c, i);
    }
    if has_char(s, c) {
        let i = choose|i: int| 0 <= i < s.len() && s[i] == c;
        lemma_match_at_single(s, c, i);
        assert(match_at(s, seq![c], i));
    }
}

/// A character occurs in a concatenation exactly when it occurs in a part.
pub proof fn lemma_has_char_concat(a: Seq<char>, b: Seq<char>, c: char)
    ensures
        has_char(a + b, c) <==> has_char(a, c) || has_char(b, c),
{
    if has_char(a + b, c) {
        let i = choose|i: int| 0 <= i < (a + b).len() && (a + b)[i] == c;
        if i < a.len() {
            assert(a[i] == c);
        } else {
            assert(b[i - a.len()] == c);
        }
    }
    if has_char(a, c) {
        let i = choose|i: int| 0 <= i < a.len() && a[i] == c;
        assert((a + b)[i] == c);
    }
    if has_char(b, c) {
        let i = choose|i: int| 0 <= i < b.len() && b[i] == c;
        assert((a + b)[a.len() + i] == c);
    }
}

/// A character occurs in a one-character string exactly when it is that character.
pub proof fn lemma_has_char_single(c0: char, c: char)
    ensures
        has_char(seq![c0], c) <==> c0 == c,
{
    assert(seq![c0][0] == c0);
    if has_char(seq![c0], c) {
        let i = choose|i: int| 0 <= i < seq![c0].len() && seq![c0][i] == c;
        assert(i == 0);
    }
}

/// In `a + [c] + b` where `c` does not occur in `a`, the first occurrence of
/// the character `c` is at index `a.len()`.
pub proof fn lemma_first_char_occurrence(a: Seq<char>, c: char, b: Seq<char>)
    requires
        !has_char(a, c),
    ensures
        find_from(a + seq![c] + b, seq![c], 0) == Some(a.len() as int),
{
    let s = a + seq![c] + b;
    assert((a + seq![c])[a.len() as int] == c);
    assert(s[a.len() as int] == c);
    lemma_match_at_single(s, c, a.len() as int);
    assert forall|j: int| 0 <= j < a.len() implies !match_at(s, seq![c], j) by {
        assert((a + seq![c])[j] == a[j]);
        assert(s[j] == a[j]);
        lemma_match_at_single(s, c, j);
    }
    lemma_find_from_first(s, seq![c], 0, a.len() as int);
}

/// True iff `sep` occurs in `s` starting at index `i`.
fn matches_at(s: &str, sep: &str, i: usize) -> (r: bool)
    requires
        i + sep@.len() <= s@.len(),
    ensures
        r == match_at(s@, sep@, i as int),
{
    let n = s.unicode_len();
    let m = sep.unicode_len();
    let mut k: usize = 0;
    while k < m
        invariant
            0 <= k <= m,
            n == s@.len(),
            m == sep@.len(),
            i + m <= n,
            forall|l: int| 0 <= l < k ==> s@[i + l] == #[trigger] sep@[l],
        decreases m - k,
    {
        if s.get_char(i + k) != sep.get_char(k) {
            assert(s@[i + k] != sep@[k as int]);
            return false;
        }
        k += 1;
    }
    true
}

/// Index of the first occurrence of `sep` in `s`, if any.
fn find_sub(s: &str, sep: &str) -> (r: Option<usize>)
    ensures
        match r {
            Some(i) => find_from(s@, sep@, 0) == Some(i as int),
            None => find_from(s@, sep@, 0) is None,
        },
{
    let n = s.unicode_len();
    let m = sep.unicode_len();
    if m > n {
        proof {
            if find_from(s@, sep@, 0) is Some {
                let k = find_from(s@, sep@, 0)->0;
                lemma_find_from_some(s@, sep@, 0, k);
            }
        }
        return None;
    }
    let mut i: usize = 0;
    while i <= n - m
        invariant
            n == s@.len(),
            m == sep@.len(),
            m <= n,
            0 <= i,
            i + m <= n + 1,
            forall|j: int| 0 <= j < i ==> !match_at(s@, sep@, j),
        decreases n - i,
    {
        if matches_at(s, sep, i) {
            proof {
                lemma_find_from_first(s@, sep@, 0, i as int);
            }
            return Some(i);
        }
        i += 1;
    }
    proof {
        if find_from(s@, sep@, 0) is Some {
            let k = find_from(s@, sep@, 0)->0;
            lemma_find_from_some(s@, sep@, 0, k);
            assert(k + m > n);
        }
    }
    None
}

/// Index of the first occurrence of the character `c` in `s`, if any.
pub(crate) fn find_char(s: &str, c: char) -> (r: Option<usize>)
    ensures
        match r {
            Some(i) => find_from(s@, seq![c], 0) == Some(i as int),
            None => find_from(s@, seq![c], 0) is None,
        },
{
    let n = s.unicode_len();
    let mut i: usize = 0;
    while i < n
        invariant
            n == s@.len(),
            0 <= i <= n,
            forall|j: int| 0 <= j < i ==> s@[j] != c,
        decreases n - i,
    {
        if s.get_char(i) == c {
            proof {
                lemma_match_at_single(s@, c, i as int);
                assert forall|j: int| 0 <= j < i implies !match_at(s@, seq![c], j) by {
                    lemma_match_at_single(s@, c, j);
                }
                lemma_find_from_first(s@, seq![c], 0, i as int);
            }
            return Some(i);
        }
        i += 1;
    }
    proof {
        if find_from(s@, seq![c], 0) is Some {
            let k = find_from(s@, seq![c], 0)->0;
            lemma_find_from_some(s@, seq![c], 0, k);
            lemma_match_at_single(s@, c, k);
        }
    }
    None
}

/// True iff the character `c` occurs in `s`.
pub fn contains_char(s: &str, c: char) -> (r: bool)
    ensures
        r == has_char(s@, c),
{
    match find_char(s, c) {
        Some(i) => {
            proof {
                lemma_find_from_some(s@, seq![c], 0, i as int);
                lemma_match_at_single(s@, c, i as int);
            }
            true
        },
        None => {
            proof {
                assert forall|j: int| 0 <= j < s@.len() implies s@[j] != c by {
                    lemma_find_from_none(s@, seq![c], 0, j);
                    lemma_match_at_single(s@, c, j);
                }
            }
            false
        },
    }
}

/// True iff the two strings hold the same characters.
pub fn str_equal(a: &str, b: &str) -> (r: bool)
    ensures
        r == (a@ == b@),
{
    let n = a.unicode_len();
    let m = b.unicode_len();
    if n != m {
        return false;
    }
    let mut i: usize = 0;
    while i < n
        invariant
            n == a@.len(),
            n == b@.len(),
            0 <= i <= n,
            forall|j: int| 0 <= j < i ==> a@[j] == b@[j],
        decreases n - i,
    {
        if a.get_char(i) != b.get_char(i) {
            return false;
        }
        i += 1;
    }
    proof {
        assert(a@ =~= b@);
    }
    true
}

/// Splits `s` at the first occurrence of `split_on`: the part before the
/// separator and the part after it. When the separator does not occur, the
/// first part is all of `s` and the second is empty.
pub fn split_into_two(s: &str, split_on: &str) -> (r: (String, String))
    ensures
        r.0@ == split_spec(s@, split_on@).0,
        r.1@ == split_spec(s@, split_on@).1,
{
    let n = s.unicode_len();
    match find_sub(s, split_on) {
        Some(i) => {
            let m = split_on.unicode_len();
            proof {
                lemma_find_from_some(s@, split_on@, 0, i as int);
            }
            let first = s.substring_char(0, i).to_owned();
            let second = s.substring_char(i + m, n).to_owned();
            (first, second)
        },
        None => (s.to_owned(), String::new()),
    }
}

/// Everything strictly before the first occurrence of `ch` in `s` (all of `s`
/// when `ch` does not occur).
pub fn remove_trailing(s: &str, ch: char) -> (r: String)
    ensures
        r@ == remove_trailing_spec(s@, ch),
{
    match find_char(s, ch) {
        Some(i) => {
            proof {
                lemma_find_from_some(s@, seq![ch], 0, i as int);
            }
            s.substring_char(0, i).to_owned()
        },
        None => s.to_owned(),
    }
}

/// `s` unchanged when it already starts with `prepend`, otherwise
/// `prepend` followed by `s`.
pub fn prepend_if_missing(s: &str, prepend: &str) -> (r: String)
    ensures
        r@ == prepend_if_missing_spec(s@, prepend@),
{
    let n = s.unicode_len();
    let m = prepend.unicode_len();
    if m <= n && matches_at(s, prepend, 0) {
        s.to_owned()
    } else {
        prepend.to_owned().concat(s)
    }
}

} // verus!

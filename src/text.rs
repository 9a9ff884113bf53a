//! Character-level helpers on strings.

use vstd::prelude::*;

verus! {

/// `i` is the position of the first `c` in `s`, or `s.len()` when `s` holds no `c`.
pub open spec fn first_at(s: Seq<char>, c: char, i: int) -> bool {
    &&& 0 <= i <= s.len()
    &&& forall|j: int| 0 <= j < i ==> s[j] != c
    &&& (i == s.len() || s[i] == c)
}

/// Position of the first `c` in `s`, or `s.len()` when there is none.
pub open spec fn first_index(s: Seq<char>, c: char) -> int {
    choose|i: int| first_at(s, c, i)
}

pub proof fn lemma_first_index(s: Seq<char>, c: char, i: int)
    requires
        first_at(s, c, i),
    ensures
        first_index(s, c) == i,
{
    let k = first_index(s, c);
    assert(first_at(s, c, k));
    if k < i {
        assert(s[k] != c);
    } else if i < k {
        assert(s[i] != c);
    }
}

/// Finds the first `c` in `s`.
pub fn find_char(s: &str, c: char) -> (r: usize)
    ensures
        r == first_index(s@, c),
        first_at(s@, c, r as int),
{
    let n = s.unicode_len();
    let mut i: usize = 0;
    while i < n
        invariant
            n == s@.len(),
            i <= n,
            forall|j: int| 0 <= j < i ==> s@[j] != c,
        decreases n - i,
    {
        if s.get_char(i) == c {
            proof { lemma_first_index(s@, c, i as int); }
            return i;
        }
        i = i + 1;
    }
    proof { lemma_first_index(s@, c, i as int); }
    i
}

/// Whether two strings hold the same characters.
pub fn same_text(a: &str, b: &str) -> (r: bool)
    ensures
        r == (a@ == b@),
{
    let n = a.unicode_len();
    if n != b.unicode_len() {
        return false;
    }
    let mut i: usize = 0;
    while i < n
        invariant
            n == a@.len(),
            n == b@.len(),
            i <= n,
            forall|j: int| 0 <= j < i ==> a@[j] == b@[j],
        decreases n - i,
    {
        if a.get_char(i) != b.get_char(i) {
            return false;
        }
        i = i + 1;
    }
    assert(a@ =~= b@);
    true
}

/// Whether `x` and `y` are the same character once ASCII letters are put in lower case.
pub open spec fn same_ignoring_ascii_case(x: char, y: char) -> bool {
    ||| x == y
    ||| ('A' <= x <= 'Z' && y as u32 == x as u32 + 32)
    ||| ('A' <= y <= 'Z' && x as u32 == y as u32 + 32)
}

pub open spec fn eq_ignoring_ascii_case(a: Seq<char>, b: Seq<char>) -> bool {
    &&& a.len() == b.len()
    &&& forall|i: int| 0 <= i < a.len() ==> same_ignoring_ascii_case(a[i], b[i])
}

/// Whether two strings are equal up to the case of ASCII letters.
pub fn equal_ignoring_ascii_case(a: &str, b: &str) -> (r: bool)
    ensures
        r == eq_ignoring_ascii_case(a@, b@),
{
    let n = a.unicode_len();
    if n != b.unicode_len() {
        return false;
    }
    let mut i: usize = 0;
    while i < n
        invariant
            n == a@.len(),
            n == b@.len(),
            i <= n,
            forall|j: int| 0 <= j < i ==> same_ignoring_ascii_case(a@[j], b@[j]),
        decreases n - i,
    {
        let x = a.get_char(i);
        let y = b.get_char(i);
        let same = x == y || ('A' <= x && x <= 'Z' && y as u32 == x as u32 + 32) || ('A' <= y
            && y <= 'Z' && x as u32 == y as u32 + 32);
        if !same {
            return false;
        }
        i = i + 1;
    }
    true
}

/// Compares a secret with a candidate without stopping at the first difference, so that the
/// time taken depends on the lengths alone.
pub fn secrets_match(secret: &str, candidate: &str) -> (r: bool)
    ensures
        r == (secret@ == candidate@),
{
    let n = secret.unicode_len();
    let m = candidate.unicode_len();
    let longest = if n > m { n } else { m };
    let mut differ = n != m;
    let mut i: usize = 0;
    while i < longest
        invariant
            n == secret@.len(),
            m == candidate@.len(),
            longest == if n > m { n } else { m },
            i <= longest,
            differ == (n != m || exists|j: int| 0 <= j < i && j < n && j < m && secret@[j] != candidate@[j]),
        decreases longest - i,
    {
        let x = if i < n { secret.get_char(i) } else { '\0' };
        let y = if i < m { candidate.get_char(i) } else { '\0' };
        if i < n && i < m && x != y {
            differ = true;
        }
        i = i + 1;
    }
    if !differ {
        assert(secret@ =~= candidate@);
    } else if n == m {
        proof {
            let j = choose|j: int|
                0 <= j < i && j < n && j < m && #[trigger] secret@[j] != candidate@[j];
            assert(secret@[j] != candidate@[j]);
        }
    }
    !differ
}

} // verus!

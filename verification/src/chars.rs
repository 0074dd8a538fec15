//! Searching character sequences: first and last occurrence of a character,
//! string equality, and how the occurrence indexes behave under
//! concatenation.

use vstd::prelude::*;

verus! {

/// The index of the first occurrence of `c` in `s`, or -1 when absent.
pub open spec fn first_ix(s: Seq<char>, c: char) -> int
    decreases s.len(),
{
    if s.len() == 0 {
        -1
    } else if s[0] == c {
        0
    } else {
        let r = first_ix(s.skip(1), c);
        if r == -1 {
            -1
        } else {
            r + 1
        }
    }
}

/// The index of the last occurrence of `c` in `s`, or -1 when absent.
pub open spec fn last_ix(s: Seq<char>, c: char) -> int
    decreases s.len(),
{
    if s.len() == 0 {
        -1
    } else if s[s.len() - 1] == c {
        s.len() - 1
    } else {
        last_ix(s.drop_last(), c)
    }
}

/// What [`first_ix`] means: -1 when `c` does not occur, else the position
/// of an occurrence before which there is none.
pub proof fn lemma_first_ix(s: Seq<char>, c: char)
    ensures
        first_ix(s, c) == -1 ==> forall|i: int| 0 <= i < s.len() ==> s[i] != c,
        first_ix(s, c) != -1 ==> 0 <= first_ix(s, c) < s.len() && s[first_ix(s, c)] == c && (forall|
            i: int,
        |
            0 <= i < first_ix(s, c) ==> s[i] != c),
    decreases s.len(),
{
    if s.len() > 0 && s[0] != c {
        lemma_first_ix(s.skip(1), c);
        let r = first_ix(s.skip(1), c);
        if r == -1 {
            assert forall|i: int| 0 <= i < s.len() implies s[i] != c by {
                if i > 0 {
                    assert(s.skip(1)[i - 1] == s[i]);
                }
            }
        } else {
            assert(s[r + 1] == s.skip(1)[r]);
            assert forall|i: int| 0 <= i < r + 1 implies s[i] != c by {
                if i > 0 {
                    assert(s.skip(1)[i - 1] == s[i]);
                }
            }
        }
    }
}

/// What [`last_ix`] means: -1 when `c` does not occur, else the position
/// of an occurrence after which there is none.
pub proof fn lemma_last_ix(s: Seq<char>, c: char)
    ensures
        last_ix(s, c) == -1 ==> forall|i: int| 0 <= i < s.len() ==> s[i] != c,
        last_ix(s, c) != -1 ==> 0 <= last_ix(s, c) < s.len() && s[last_ix(s, c)] == c && (forall|
            i: int,
        |
            last_ix(s, c) < i < s.len() ==> s[i] != c),
    decreases s.len(),
{
    if s.len() > 0 && s[s.len() - 1] != c {
        lemma_last_ix(s.drop_last(), c);
        let r = last_ix(s.drop_last(), c);
        if r == -1 {
            assert forall|i: int| 0 <= i < s.len() implies s[i] != c by {
                if i < s.len() - 1 {
                    assert(s.drop_last()[i] == s[i]);
                }
            }
        } else {
            assert(s[r] == s.drop_last()[r]);
            assert forall|i: int| r < i < s.len() implies s[i] != c by {
                if i < s.len() - 1 {
                    assert(s.drop_last()[i] == s[i]);
                }
            }
        }
    }
}

/// When `c` does not occur in `a`, the first occurrence in `a + b` is the
/// first occurrence in `b`, shifted past `a`.
pub proof fn lemma_first_ix_append(a: Seq<char>, b: Seq<char>, c: char)
    requires
        forall|i: int| 0 <= i < a.len() ==> a[i] != c,
    ensures
        first_ix(a + b, c) == if first_ix(b, c) == -1 {
            -1int
        } else {
            a.len() + first_ix(b, c)
        },
    decreases a.len(),
{
    if a.len() == 0 {
        assert(a + b =~= b);
    } else {
        assert((a + b)[0] == a[0]);
        assert((a + b).skip(1) =~= a.skip(1) + b);
        assert forall|i: int| 0 <= i < a.skip(1).len() implies a.skip(1)[i] != c by {
            assert(a.skip(1)[i] == a[i + 1]);
        }
        lemma_first_ix_append(a.skip(1), b, c);
        lemma_first_ix(b, c);
        assert(first_ix((a + b).skip(1), c) == first_ix(a.skip(1) + b, c));
        assert(first_ix(a + b, c) == if first_ix((a + b).skip(1), c) == -1 {
            -1int
        } else {
            first_ix((a + b).skip(1), c) + 1
        });
    }
}

/// When `c` does not occur in `b`, the last occurrence in `a + b` is the
/// last occurrence in `a`.
pub proof fn lemma_last_ix_append(a: Seq<char>, b: Seq<char>, c: char)
    requires
        forall|i: int| 0 <= i < b.len() ==> b[i] != c,
    ensures
        last_ix(a + b, c) == last_ix(a, c),
    decreases b.len(),
{
    if b.len() == 0 {
        assert(a + b =~= a);
    } else {
        assert((a + b).drop_last() =~= a + b.drop_last());
        assert(forall|i: int| 0 <= i < b.drop_last().len() ==> b.drop_last()[i] == b[i]);
        assert((a + b)[(a + b).len() - 1] == b[b.len() - 1]);
        lemma_last_ix_append(a, b.drop_last(), c);
    }
}

/// The index of the first occurrence of `c` in `s`, scanning left to right.
pub fn char_index_first(s: &str, c: char) -> (r: Option<usize>)
    ensures
        match r {
            Some(i) => i < s@.len() && first_ix(s@, c) == i,
            None => first_ix(s@, c) == -1,
        },
{
    let n = s.unicode_len();
    let mut j: usize = 0;
    while j < n
        invariant
            0 <= j <= n,
            n == s@.len(),
            forall|i: int| 0 <= i < j ==> s@[i] != c,
        decreases n - j,
    {
        if s.get_char(j) == c {
            proof {
                lemma_first_ix(s@, c);
            }
            return Some(j);
        }
        j = j + 1;
    }
    proof {
        lemma_first_ix(s@, c);
    }
    None
}

/// The absolute index of the last occurrence of `c` at or after position
/// `lo` in `s`, scanning right to left.
pub fn char_index_last_from(s: &str, lo: usize, c: char) -> (r: Option<usize>)
    requires
        lo <= s@.len(),
    ensures
        match r {
            Some(j) => lo <= j < s@.len() && last_ix(s@.skip(lo as int), c) == j - lo,
            None => last_ix(s@.skip(lo as int), c) == -1,
        },
{
    let n = s.unicode_len();
    let mut j: usize = n;
    while j > lo
        invariant
            lo <= j <= n,
            n == s@.len(),
            forall|i: int| j <= i < n ==> s@[i] != c,
        decreases j,
    {
        j = j - 1;
        if s.get_char(j) == c {
            proof {
                let t = s@.skip(lo as int);
                lemma_last_ix(t, c);
                assert(t[j - lo] == s@[j as int]);
                assert(forall|i: int| j - lo < i < t.len() ==> t[i] == s@[i + lo]);
            }
            return Some(j);
        }
    }
    proof {
        let t = s@.skip(lo as int);
        lemma_last_ix(t, c);
        assert(forall|i: int| 0 <= i < t.len() ==> t[i] == s@[i + lo]);
    }
    None
}

/// Whether two strings hold the same characters.
pub fn chars_eq(a: &str, b: &str) -> (r: bool)
    ensures
        r == (a@ == b@),
{
    let na = a.unicode_len();
    let nb = b.unicode_len();
    if na != nb {
        return false;
    }
    let mut j: usize = 0;
    while j < na
        invariant
            0 <= j <= na,
            na == a@.len(),
            na == b@.len(),
            forall|i: int| 0 <= i < j ==> a@[i] == b@[i],
        decreases na - j,
    {
        if a.get_char(j) != b.get_char(j) {
            return false;
        }
        j = j + 1;
    }
    proof {
        assert(a@ =~= b@);
    }
    true
}

} // verus!

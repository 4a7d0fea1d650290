//! Finding the first occurrence of a value in a sequence.

use vstd::prelude::*;

verus! {

/// The position of the first occurrence of `x` in `s`, or the length of
/// `s` where `x` does not occur.
pub open spec fn first_index<T>(s: Seq<T>, x: T) -> int
    decreases s.len(),
{
    if s.len() == 0 {
        0
    } else if s[0] == x {
        0
    } else {
        1 + first_index(s.drop_first(), x)
    }
}

/// Whether no value occurs twice in `s`.
pub open spec fn all_distinct<T>(s: Seq<T>) -> bool {
    forall|i: int, j: int| 0 <= i < j < s.len() ==> s[i] != s[j]
}

/// The values of `s` without repetitions, each at the place of its first
/// occurrence.
pub open spec fn without_repeats<T>(s: Seq<T>) -> Seq<T>
    decreases s.len(),
{
    if s.len() == 0 {
        s
    } else if without_repeats(s.drop_last()).contains(s.last()) {
        without_repeats(s.drop_last())
    } else {
        without_repeats(s.drop_last()).push(s.last())
    }
}

/// `first_index` is within the sequence or at its end; where it is within,
/// `x` stands there and nowhere before.
pub proof fn lemma_first_index<T>(s: Seq<T>, x: T)
    ensures
        0 <= first_index(s, x) <= s.len(),
        first_index(s, x) < s.len() ==> s[first_index(s, x)] == x,
        forall|j: int| 0 <= j < first_index(s, x) ==> s[j] != x,
        first_index(s, x) == s.len() <==> !s.contains(x),
    decreases s.len(),
{
    if s.len() == 0 {
    } else if s[0] == x {
    } else {
        let rest = s.drop_first();
        lemma_first_index(rest, x);
        assert forall|j: int| 0 <= j < first_index(s, x) implies s[j] != x by {
            if j > 0 {
                assert(s[j] == rest[j - 1]);
            }
        }
        if first_index(s, x) < s.len() {
            assert(s[first_index(s, x)] == rest[first_index(rest, x)]);
        }
        if s.contains(x) {
            let k = choose|k: int| 0 <= k < s.len() && s[k] == x;
            assert(rest[k - 1] == x);
        }
    }
}

/// The position `i` is `first_index(s, x)` where `x` does not occur before
/// `i`, and `i` is the end of `s` or holds `x`.
pub proof fn lemma_first_index_is<T>(s: Seq<T>, x: T, i: int)
    requires
        0 <= i <= s.len(),
        forall|j: int| 0 <= j < i ==> s[j] != x,
        i < s.len() ==> s[i] == x,
    ensures
        first_index(s, x) == i,
{
    lemma_first_index(s, x);
    let f = first_index(s, x);
    if f < i {
        assert(s[f] == x);
    } else if f > i {
        assert(s[i] != x);
    }
}

/// Every value of `s` occurs in `without_repeats(s)`.
pub proof fn lemma_without_repeats_keeps<T>(s: Seq<T>, i: int)
    requires
        0 <= i < s.len(),
    ensures
        without_repeats(s).contains(s[i]),
    decreases s.len(),
{
    let shorter = s.drop_last();
    let w = without_repeats(shorter);
    if i < s.len() - 1 {
        lemma_without_repeats_keeps(shorter, i);
        assert(shorter[i] == s[i]);
        let m = choose|m: int| 0 <= m < w.len() && w[m] == s[i];
        assert(without_repeats(s)[m] == s[i]);
    } else {
        if w.contains(s[i]) {
        } else {
            assert(without_repeats(s)[w.len() as int] == s[i]);
        }
    }
}

/// Every value of `without_repeats(s)` occurs in `s`.
pub proof fn lemma_without_repeats_adds_nothing<T>(s: Seq<T>, m: int)
    requires
        0 <= m < without_repeats(s).len(),
    ensures
        s.contains(without_repeats(s)[m]),
    decreases s.len(),
{
    let shorter = s.drop_last();
    let w = without_repeats(shorter);
    if s.len() > 0 {
        if m < w.len() {
            lemma_without_repeats_adds_nothing(shorter, m);
            let k = choose|k: int| 0 <= k < shorter.len() && shorter[k] == w[m];
            assert(s[k] == w[m]);
        } else {
            assert(s[s.len() - 1] == without_repeats(s)[m]);
        }
    }
}

/// No value occurs twice in `without_repeats(s)`, which is no longer than
/// `s`.
pub proof fn lemma_without_repeats_distinct<T>(s: Seq<T>)
    ensures
        all_distinct(without_repeats(s)),
        without_repeats(s).len() <= s.len(),
    decreases s.len(),
{
    if s.len() > 0 {
        lemma_without_repeats_distinct(s.drop_last());
    }
}

} // verus!

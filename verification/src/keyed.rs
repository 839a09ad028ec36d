//! Facts about sequences that hold each key once. The stores keep their
//! records in such sequences and find them by key.

use vstd::prelude::*;

verus! {

/// In a sequence without duplicates an element is found where it stands.
pub proof fn index_of_unique<A>(s: Seq<A>, i: int)
    requires
        s.no_duplicates(),
        0 <= i < s.len(),
    ensures
        s.contains(s[i]),
        s.index_of(s[i]) == i,
{
    let j = s.index_of(s[i]);
    assert(0 <= j < s.len() && s[j] == s[i]);
}

/// Appending a new key keeps the keys distinct.
pub proof fn push_keeps_distinct<A>(s: Seq<A>, x: A)
    requires
        s.no_duplicates(),
        !s.contains(x),
    ensures
        s.push(x).no_duplicates(),
        s.push(x).contains(x),
        s.push(x).index_of(x) == s.len(),
        forall|y: A| s.contains(y)
            ==> s.push(x).contains(y) && s.push(x).index_of(y) == s.index_of(y),
        forall|y: A| s.push(x).contains(y) ==> y == x || s.contains(y),
{
    let t = s.push(x);
    assert(t[s.len() as int] == x);
    index_of_unique(t, s.len() as int);
    assert forall|y: A| s.contains(y) implies t.contains(y) && t.index_of(y) == s.index_of(y) by {
        let i = s.index_of(y);
        assert(t[i] == y);
        index_of_unique(t, i);
    }
    assert forall|y: A| t.contains(y) implies y == x || s.contains(y) by {
        let i = t.index_of(y);
        if i < s.len() {
            assert(s[i] == y);
        }
    }
}

/// Removing one place keeps the keys distinct and drops exactly its key.
pub proof fn remove_keeps_distinct<A>(s: Seq<A>, i: int)
    requires
        s.no_duplicates(),
        0 <= i < s.len(),
    ensures
        s.remove(i).no_duplicates(),
        !s.remove(i).contains(s[i]),
        forall|y: A| y != s[i] && s.contains(y) ==> s.remove(i).contains(y),
        forall|y: A| s.remove(i).contains(y) ==> s.contains(y) && y != s[i],
        forall|y: A| #![trigger s.remove(i).index_of(y)] s.remove(i).contains(y)
            ==> s.remove(i).index_of(y) == (
                if s.index_of(y) < i { s.index_of(y) } else { s.index_of(y) - 1 }
            ),
{
    let t = s.remove(i);
    assert forall|a: int, b: int| 0 <= a < t.len() && 0 <= b < t.len() && a != b implies t[a]
        != t[b] by {
        let a2 = if a < i { a } else { a + 1 };
        let b2 = if b < i { b } else { b + 1 };
        assert(t[a] == s[a2] && t[b] == s[b2]);
    }
    assert forall|y: A| t.contains(y) implies s.contains(y) && y != s[i] by {
        let k = t.index_of(y);
        let k2 = if k < i { k } else { k + 1 };
        assert(s[k2] == y);
    }
    assert forall|y: A| y != s[i] && s.contains(y) implies t.contains(y) by {
        let k = s.index_of(y);
        let k2 = if k < i { k } else { k - 1 };
        assert(t[k2] == y);
    }
    assert forall|y: A| #![trigger t.index_of(y)] t.contains(y) implies t.index_of(y) == (
        if s.index_of(y) < i { s.index_of(y) } else { s.index_of(y) - 1 }
    ) by {
        let k = t.index_of(y);
        let k2 = if k < i { k } else { k + 1 };
        assert(s[k2] == y);
        index_of_unique(s, k2);
    }
}

} // verus!

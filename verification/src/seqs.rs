//! First-match lookup in sequences, the lookup rule of every registry here.

use vstd::prelude::*;

verus! {

/// The position of the first element satisfying `p`, or -1 when none does.
pub open spec fn first_pos<T>(s: Seq<T>, p: spec_fn(T) -> bool) -> int
    decreases s.len(),
{
    if s.len() == 0 {
        -1
    } else if p(s[0]) {
        0
    } else {
        let rest = first_pos(s.drop_first(), p);
        if rest < 0 {
            -1
        } else {
            rest + 1
        }
    }
}

/// `first_pos` is the least position satisfying `p`, or -1 when there is none.
pub proof fn lemma_first_pos<T>(s: Seq<T>, p: spec_fn(T) -> bool)
    ensures
        -1 <= first_pos(s, p) < s.len(),
        first_pos(s, p) >= 0 ==> p(s[first_pos(s, p)]),
        forall|j: int| 0 <= j < first_pos(s, p) ==> !p(#[trigger] s[j]),
        first_pos(s, p) < 0 ==> forall|j: int| 0 <= j < s.len() ==> !p(#[trigger] s[j]),
    decreases s.len(),
{
    if s.len() > 0 && !p(s[0]) {
        let t = s.drop_first();
        lemma_first_pos(t, p);
        assert forall|j: int| 0 < j < s.len() implies s[j] == t[j - 1] by {}
        if first_pos(s, p) < 0 {
            assert forall|j: int| 0 <= j < s.len() implies !p(#[trigger] s[j]) by {
                if j > 0 {
                    assert(s[j] == t[j - 1]);
                }
            }
        } else {
            assert forall|j: int| 0 <= j < first_pos(s, p) implies !p(#[trigger] s[j]) by {
                if j > 0 {
                    assert(s[j] == t[j - 1]);
                }
            }
        }
    }
}

/// A position satisfying `p` with no earlier one is the first position.
pub proof fn lemma_first_pos_is<T>(s: Seq<T>, p: spec_fn(T) -> bool, i: int)
    requires
        -1 <= i < s.len(),
        i >= 0 ==> p(s[i]),
        i >= 0 ==> forall|j: int| 0 <= j < i ==> !p(#[trigger] s[j]),
        i < 0 ==> forall|j: int| 0 <= j < s.len() ==> !p(#[trigger] s[j]),
    ensures
        first_pos(s, p) == i,
{
    lemma_first_pos(s, p);
    let f = first_pos(s, p);
    if i >= 0 && f >= 0 {
        if f < i {
            assert(!p(s[f]));
        }
        if i < f {
            assert(!p(s[i]));
        }
    } else if i >= 0 {
        assert(!p(s[i]));
    } else if f >= 0 {
        assert(!p(s[f]));
    }
}

/// Replacing the element at the first matching position with another matching
/// element keeps that position first.
pub proof fn lemma_first_pos_update<T>(s: Seq<T>, p: spec_fn(T) -> bool, v: T)
    requires
        first_pos(s, p) >= 0,
        p(v),
    ensures
        first_pos(s.update(first_pos(s, p), v), p) == first_pos(s, p),
{
    lemma_first_pos(s, p);
    let i = first_pos(s, p);
    let t = s.update(i, v);
    assert forall|j: int| 0 <= j < i implies !p(#[trigger] t[j]) by {
        assert(t[j] == s[j]);
    }
    lemma_first_pos_is(t, p, i);
}

/// Appending a matching element to a sequence without one makes it first.
pub proof fn lemma_first_pos_push<T>(s: Seq<T>, p: spec_fn(T) -> bool, v: T)
    requires
        first_pos(s, p) < 0,
        p(v),
    ensures
        first_pos(s.push(v), p) == s.len(),
{
    lemma_first_pos(s, p);
    let t = s.push(v);
    assert forall|j: int| 0 <= j < s.len() implies !p(#[trigger] t[j]) by {
        assert(t[j] == s[j]);
    }
    lemma_first_pos_is(t, p, s.len() as int);
}

/// Changing an element at another position leaves the first match of `q` in
/// place when neither the old nor the new element satisfies `q`.
pub proof fn lemma_first_pos_other_update<T>(
    s: Seq<T>,
    q: spec_fn(T) -> bool,
    i: int,
    v: T,
)
    requires
        0 <= i < s.len(),
        !q(s[i]),
        !q(v),
    ensures
        first_pos(s.update(i, v), q) == first_pos(s, q),
{
    lemma_first_pos(s, q);
    let t = s.update(i, v);
    let f = first_pos(s, q);
    assert forall|j: int| 0 <= j < t.len() && j != i implies t[j] == s[j] by {}
    if f >= 0 {
        assert forall|j: int| 0 <= j < f implies !q(#[trigger] t[j]) by {
            if j != i {
                assert(t[j] == s[j]);
            }
        }
        assert(t[f] == s[f]);
    } else {
        assert forall|j: int| 0 <= j < t.len() implies !q(#[trigger] t[j]) by {
            if j != i {
                assert(t[j] == s[j]);
            }
        }
    }
    lemma_first_pos_is(t, q, f);
}

} // verus!

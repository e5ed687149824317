//! How often an element occurs in a sequence.

use vstd::prelude::*;

verus! {

/// How often an element occurs in a sequence.
pub open spec fn times<C>(s: Seq<C>, c: C) -> nat
    decreases s.len(),
{
    if s.len() == 0 {
        0
    } else {
        times(s.drop_last(), c) + if s.last() == c {
            1nat
        } else {
            0nat
        }
    }
}

/// An element more.
pub proof fn lemma_times_push<C>(s: Seq<C>, x: C, c: C)
    ensures
        times(s.push(x), c) == times(s, c) + if x == c {
            1nat
        } else {
            0nat
        },
{
    assert(s.push(x).drop_last() =~= s);
}

/// An element occurs in two sequences joined as often as in both together.
pub proof fn lemma_times_add<C>(a: Seq<C>, b: Seq<C>, c: C)
    ensures
        times(a + b, c) == times(a, c) + times(b, c),
    decreases b.len(),
{
    if b.len() == 0 {
        assert(a + b =~= a);
    } else {
        lemma_times_add(a, b.drop_last(), c);
        assert((a + b).drop_last() =~= a + b.drop_last());
    }
}

/// A single element.
pub proof fn lemma_times_one<C>(x: C, c: C)
    ensures
        times(seq![x], c) == if x == c {
            1nat
        } else {
            0nat
        },
{
    lemma_times_push(Seq::empty(), x, c);
    assert(Seq::<C>::empty().push(x) =~= seq![x]);
    assert(times(Seq::<C>::empty(), c) == 0);
}

/// The first element taken off.
pub proof fn lemma_times_front<C>(s: Seq<C>, c: C)
    requires
        s.len() > 0,
    ensures
        times(s, c) == times(s.subrange(1, s.len() as int), c) + if s[0] == c {
            1nat
        } else {
            0nat
        },
{
    assert(s =~= seq![s[0]] + s.subrange(1, s.len() as int));
    lemma_times_add(seq![s[0]], s.subrange(1, s.len() as int), c);
    lemma_times_one(s[0], c);
}

/// Putting the last element into the place of another takes that other out.
pub proof fn lemma_times_swap_remove<C>(s: Seq<C>, i: int, c: C)
    requires
        0 <= i < s.len(),
    ensures
        times(s, c) == times(s.update(i, s.last()).drop_last(), c) + if s[i] == c {
            1nat
        } else {
            0nat
        },
{
    let short = s.update(i, s.last()).drop_last();
    if i == s.len() - 1 {
        assert(short =~= s.drop_last());
    } else {
        let head = s.subrange(0, i);
        let middle = s.subrange(i + 1, s.len() - 1);
        assert(s =~= ((head + seq![s[i]]) + middle) + seq![s.last()]);
        assert(short =~= (head + seq![s.last()]) + middle);
        lemma_times_add((head + seq![s[i]]) + middle, seq![s.last()], c);
        lemma_times_add(head + seq![s[i]], middle, c);
        lemma_times_add(head, seq![s[i]], c);
        lemma_times_add(head + seq![s.last()], middle, c);
        lemma_times_add(head, seq![s.last()], c);
        lemma_times_one(s[i], c);
        lemma_times_one(s.last(), c);
    }
}

} // verus!

//! Order-preserving selection of the items of a sequence of indices.

use vstd::prelude::*;

verus! {

/// The items of `s` that `keep` accepts, in the order they have in `s`.
pub open spec fn kept(s: Seq<usize>, keep: spec_fn(usize) -> bool) -> Seq<usize>
    decreases s.len(),
{
    if s.len() == 0 {
        Seq::empty()
    } else if keep(s.last()) {
        kept(s.drop_last(), keep).push(s.last())
    } else {
        kept(s.drop_last(), keep)
    }
}

/// The test that accepts every index but `x`.
pub open spec fn other_than(x: usize) -> spec_fn(usize) -> bool {
    |y: usize| y != x
}

/// The test that accepts the indices that `xs` does not hold.
pub open spec fn not_in(xs: Seq<usize>) -> spec_fn(usize) -> bool {
    |y: usize| !xs.contains(y)
}

/// The test that accepts the indices below `n`.
pub open spec fn below(n: nat) -> spec_fn(usize) -> bool {
    |y: usize| y < n
}

/// `s` with every occurrence of `x` taken out.
pub open spec fn without(s: Seq<usize>, x: usize) -> Seq<usize> {
    kept(s, other_than(x))
}

/// `kept` holds exactly the accepted items of `s`, and no item twice where
/// `s` holds none twice.
pub proof fn lemma_kept_members(s: Seq<usize>, keep: spec_fn(usize) -> bool)
    ensures
        forall|x: usize| #[trigger] kept(s, keep).contains(x) <==> s.contains(x) && keep(x),
        s.no_duplicates() ==> kept(s, keep).no_duplicates(),
        kept(s, keep).len() <= s.len(),
    decreases s.len(),
{
    if s.len() > 0 {
        let d = s.drop_last();
        lemma_kept_members(d, keep);
        let kd = kept(d, keep);
        assert forall|x: usize| #[trigger] kept(s, keep).contains(x) <==> s.contains(x) && keep(
            x,
        ) by {
            if s.contains(x) {
                let i = choose|i: int| 0 <= i < s.len() && s[i] == x;
                if i < s.len() - 1 {
                    assert(d[i] == x);
                }
            }
            if kd.contains(x) {
                let i = choose|i: int| 0 <= i < d.len() && d[i] == x;
                assert(s[i] == x);
            }
            if keep(s.last()) {
                let k = kd.push(s.last());
                assert(k[kd.len() as int] == s.last());
                if kd.contains(x) {
                    let i = choose|i: int| 0 <= i < kd.len() && kd[i] == x;
                    assert(k[i] == x);
                }
            }
            assert(s[s.len() - 1] == s.last());
        }
        if s.no_duplicates() {
            assert(d.no_duplicates());
            if d.contains(s.last()) {
                let i = choose|i: int| 0 <= i < d.len() && d[i] == s.last();
                assert(s[i] == s[s.len() - 1]);
            }
            assert(!kd.contains(s.last()));
            if keep(s.last()) {
                let k = kd.push(s.last());
                assert forall|i: int, j: int| 0 <= i < k.len() && 0 <= j < k.len() && i != j implies k[i] != k[j] by {
                    if i < kd.len() {
                        assert(kd.contains(kd[i]));
                    }
                    if j < kd.len() {
                        assert(kd.contains(kd[j]));
                    }
                }
            }
        }
    }
}

/// Selecting twice is selecting once by both tests.
pub proof fn lemma_kept_twice(
    s: Seq<usize>,
    first: spec_fn(usize) -> bool,
    second: spec_fn(usize) -> bool,
    both: spec_fn(usize) -> bool,
)
    requires
        forall|x: usize| s.contains(x) ==> (#[trigger] both(x) <==> first(x) && second(x)),
    ensures
        kept(kept(s, first), second) == kept(s, both),
    decreases s.len(),
{
    if s.len() > 0 {
        let d = s.drop_last();
        assert forall|x: usize| d.contains(x) implies (#[trigger] both(x) <==> first(x) && second(
            x,
        )) by {
            let i = choose|i: int| 0 <= i < d.len() && d[i] == x;
            assert(s[i] == x);
        }
        lemma_kept_twice(d, first, second, both);
        assert(s[s.len() - 1] == s.last());
        assert(s.contains(s.last()));
        if first(s.last()) {
            assert(kept(d, first).push(s.last()).drop_last() == kept(d, first));
        }
    }
}

/// A test that accepts every item of `s` changes nothing.
pub proof fn lemma_kept_all(s: Seq<usize>, keep: spec_fn(usize) -> bool)
    requires
        forall|x: usize| s.contains(x) ==> #[trigger] keep(x),
    ensures
        kept(s, keep) == s,
    decreases s.len(),
{
    if s.len() > 0 {
        let d = s.drop_last();
        assert forall|x: usize| d.contains(x) implies #[trigger] keep(x) by {
            let i = choose|i: int| 0 <= i < d.len() && d[i] == x;
            assert(s[i] == x);
        }
        lemma_kept_all(d, keep);
        assert(s[s.len() - 1] == s.last());
        assert(d.push(s.last()) == s);
    }
}

/// `without` holds the items of `s` other than `x`, keeps `s` free of
/// repeats, and is `s` itself where `x` is not in it.
pub proof fn lemma_without_members(s: Seq<usize>, x: usize)
    ensures
        forall|y: usize| #[trigger] without(s, x).contains(y) <==> s.contains(y) && y != x,
        s.no_duplicates() ==> without(s, x).no_duplicates(),
        !s.contains(x) ==> without(s, x) == s,
{
    let keep = other_than(x);
    lemma_kept_members(s, keep);
    if !s.contains(x) {
        lemma_kept_all(s, keep);
    }
}

} // verus!

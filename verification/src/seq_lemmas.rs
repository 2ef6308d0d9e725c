//! Small facts about sequences that the rule proofs share.
use vstd::prelude::*;

verus! {

/// Taking one more element extends the prefix by that element.
pub proof fn lemma_take_drop_last<A>(s: Seq<A>, i: int)
    requires
        0 <= i < s.len(),
    ensures
        s.take(i + 1).drop_last() == s.take(i),
        s.take(i + 1).last() == s[i],
{
    assert(s.take(i + 1).drop_last() =~= s.take(i));
}

/// Concatenation is associative.
pub proof fn lemma_concat_assoc<A>(a: Seq<A>, b: Seq<A>, c: Seq<A>)
    ensures
        a + b + c == a + (b + c),
{
    assert(a + b + c =~= a + (b + c));
}

/// Appending nothing changes nothing.
pub proof fn lemma_concat_empty<A>(a: Seq<A>)
    ensures
        a + Seq::<A>::empty() == a,
        Seq::<A>::empty() + a == a,
{
    assert(a + Seq::<A>::empty() =~= a);
    assert(Seq::<A>::empty() + a =~= a);
}

/// Joining one more part of `parts` appends that part.
pub proof fn lemma_flatten_alt_step<A>(parts: Seq<Seq<A>>, k: int)
    requires
        0 <= k < parts.len(),
    ensures
        parts.take(k + 1).flatten_alt() == parts.take(k).flatten_alt() + parts[k],
{
    lemma_take_drop_last(parts, k);
}

/// Every prefix of `parts`, joined, is the shorter prefix joined and then
/// its last part.
pub proof fn lemma_flatten_alt_prefixes<A>(parts: Seq<Seq<A>>)
    ensures
        forall|j: int|
            0 < j <= parts.len() ==> #[trigger] parts.take(j).flatten_alt() == parts.take(
                j - 1,
            ).flatten_alt() + parts[j - 1],
{
    assert forall|j: int| 0 < j <= parts.len() implies #[trigger] parts.take(j).flatten_alt()
        == parts.take(j - 1).flatten_alt() + parts[j - 1] by {
        lemma_flatten_alt_step(parts, j - 1);
    }
}

} // verus!

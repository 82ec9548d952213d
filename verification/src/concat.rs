//! Concatenation of a sequence of sequences, and where each part lands.

use vstd::prelude::*;

verus! {

/// The parts laid end to end, first part first.
pub open spec fn concat<A>(parts: Seq<Seq<A>>) -> Seq<A>
    decreases parts.len(),
{
    if parts.len() == 0 {
        Seq::empty()
    } else {
        concat(parts.drop_last()) + parts.last()
    }
}

/// The sum of the lengths of the parts.
pub open spec fn total_len<A>(parts: Seq<Seq<A>>) -> nat
    decreases parts.len(),
{
    if parts.len() == 0 {
        0
    } else {
        total_len(parts.drop_last()) + parts.last().len()
    }
}

/// Where part `i` starts in the concatenation: the sum of the lengths of
/// the parts before it.
pub open spec fn offset<A>(parts: Seq<Seq<A>>, i: int) -> int {
    total_len(parts.take(i)) as int
}

/// The concatenation is as long as the parts together.
pub proof fn lemma_concat_len<A>(parts: Seq<Seq<A>>)
    ensures
        concat(parts).len() == total_len(parts),
    decreases parts.len(),
{
    if parts.len() > 0 {
        lemma_concat_len(parts.drop_last());
    }
}

/// Part `i` starts no later than the concatenation ends, and it fits.
pub proof fn lemma_offset_bound<A>(parts: Seq<Seq<A>>, i: int)
    requires
        0 <= i < parts.len(),
    ensures
        offset(parts, i) + parts[i].len() <= total_len(parts),
    decreases parts.len(),
{
    let front = parts.drop_last();
    if i == parts.len() - 1 {
        assert(parts.take(i) =~= front);
    } else {
        lemma_offset_bound(front, i);
        assert(front.take(i) =~= parts.take(i));
        assert(front[i] == parts[i]);
    }
}

/// Part `i` stands in the concatenation unchanged, at its offset.
pub proof fn lemma_concat_block<A>(parts: Seq<Seq<A>>, i: int)
    requires
        0 <= i < parts.len(),
    ensures
        offset(parts, i) + parts[i].len() <= concat(parts).len(),
        concat(parts).subrange(offset(parts, i), offset(parts, i) + parts[i].len())
            == parts[i],
    decreases parts.len(),
{
    let front = parts.drop_last();
    lemma_concat_len(parts);
    lemma_concat_len(front);
    lemma_offset_bound(parts, i);
    if i == parts.len() - 1 {
        assert(parts.take(i) =~= front);
        assert(concat(parts).subrange(offset(parts, i), offset(parts, i) + parts[i].len())
            =~= parts[i]);
    } else {
        lemma_concat_block(front, i);
        lemma_offset_bound(front, i);
        assert(front.take(i) =~= parts.take(i));
        assert(front[i] == parts[i]);
        let start = offset(parts, i);
        let end = start + parts[i].len();
        assert(concat(parts).subrange(start, end) =~= concat(front).subrange(start, end));
    }
}

} // verus!

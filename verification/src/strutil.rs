//! Joining rendered pieces of text.

use vstd::prelude::*;

verus! {

/// The pieces joined with the separator between consecutive pieces.
pub open spec fn join_texts(parts: Seq<Seq<char>>, sep: Seq<char>) -> Seq<char>
    decreases parts.len(),
{
    if parts.len() == 0 {
        Seq::empty()
    } else if parts.len() == 1 {
        parts[0]
    } else {
        join_texts(parts.drop_last(), sep) + sep + parts.last()
    }
}

/// Appending one more piece extends the join by a separator and the
/// piece — the unfolding step that loops over pieces rely on.
pub proof fn lemma_join_push(parts: Seq<Seq<char>>, sep: Seq<char>, x: Seq<char>)
    ensures
        join_texts(parts.push(x), sep) == if parts.len() == 0 {
            x
        } else {
            join_texts(parts, sep) + sep + x
        },
{
    assert(parts.push(x).drop_last() =~= parts);
    assert(parts.push(x).last() == x);
}

/// Two pieces join to the first, the separator, then the second.
pub proof fn lemma_join_two(a: Seq<char>, b: Seq<char>, sep: Seq<char>)
    ensures
        join_texts(seq![a, b], sep) == a + sep + b,
{
    let two = seq![a, b];
    assert(two.drop_last() =~= seq![a]);
    assert(join_texts(seq![a], sep) == a);
    assert(two.last() == b);
}

} // verus!

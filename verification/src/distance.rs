//! The Hamming distance between bit sequences, and why it is a metric.

use crate::error::HashError;
use vstd::prelude::*;

verus! {

/// The number of positions at which `a` and `b` differ. It is meant for
/// sequences of one length.
pub open spec fn hamming(a: Seq<bool>, b: Seq<bool>) -> nat
    recommends
        a.len() == b.len(),
    decreases a.len(),
{
    if a.len() == 0 {
        0
    } else {
        hamming(a.drop_last(), b.drop_last()) + if a.last() != b.last() {
            1nat
        } else {
            0nat
        }
    }
}

/// What comparing `a` with `b` gives: their Hamming distance where they have
/// one length, and otherwise the refusal to compare them.
pub open spec fn distance_of(a: Seq<bool>, b: Seq<bool>) -> Result<nat, HashError> {
    if a.len() == b.len() {
        Ok(hamming(a, b))
    } else {
        Err(HashError::LengthMismatch)
    }
}

/// Two sequences differ at no more positions than they have.
pub proof fn lemma_distance_at_most_length(a: Seq<bool>, b: Seq<bool>)
    ensures
        hamming(a, b) <= a.len(),
    decreases a.len(),
{
    if a.len() > 0 {
        lemma_distance_at_most_length(a.drop_last(), b.drop_last());
    }
}

/// Looking one position further adds one to the distance exactly when the
/// sequences differ there.
pub proof fn lemma_hamming_step(a: Seq<bool>, b: Seq<bool>, i: int)
    requires
        0 <= i < a.len(),
        0 <= i < b.len(),
    ensures
        hamming(a.take(i + 1), b.take(i + 1)) == hamming(a.take(i), b.take(i)) + if a[i] != b[i] {
            1nat
        } else {
            0nat
        },
{
    assert(a.take(i + 1).drop_last() =~= a.take(i));
    assert(b.take(i + 1).drop_last() =~= b.take(i));
}

/// A sequence is at distance zero from itself.
pub proof fn lemma_distance_to_self(a: Seq<bool>)
    ensures
        hamming(a, a) == 0,
        distance_of(a, a) == Ok::<nat, HashError>(0),
    decreases a.len(),
{
    if a.len() > 0 {
        lemma_distance_to_self(a.drop_last());
    }
}

/// The distance does not depend on the order of the two sequences, and
/// neither does the refusal to compare them.
pub proof fn lemma_distance_symmetric(a: Seq<bool>, b: Seq<bool>)
    ensures
        distance_of(a, b) == distance_of(b, a),
    decreases a.len(),
{
    if a.len() == b.len() && a.len() > 0 {
        lemma_distance_symmetric(a.drop_last(), b.drop_last());
    }
}

/// Going from `a` to `b` directly is no longer than going through `c`, for
/// sequences of one length.
pub proof fn lemma_distance_triangle(a: Seq<bool>, b: Seq<bool>, c: Seq<bool>)
    requires
        a.len() == b.len(),
        a.len() == c.len(),
    ensures
        hamming(a, b) <= hamming(a, c) + hamming(c, b),
    decreases a.len(),
{
    if a.len() > 0 {
        lemma_distance_triangle(a.drop_last(), b.drop_last(), c.drop_last());
    }
}

/// Sequences of one length are at distance zero exactly when they are equal.
pub proof fn lemma_distance_zero_iff_equal(a: Seq<bool>, b: Seq<bool>)
    requires
        a.len() == b.len(),
    ensures
        hamming(a, b) == 0 <==> a == b,
    decreases a.len(),
{
    if a.len() > 0 {
        lemma_distance_zero_iff_equal(a.drop_last(), b.drop_last());
        if hamming(a, b) == 0 {
            assert(a.drop_last() == b.drop_last());
            assert(a =~= a.drop_last().push(a.last()));
            assert(b =~= b.drop_last().push(b.last()));
        } else if a == b {
            lemma_distance_to_self(a);
        }
    } else {
        assert(a =~= b);
    }
}

} // verus!

//! Spec-level summation over sequences of counters, and occurrence counting
//! over sequences of 8-bit samples.  These are the mathematical tools behind
//! the histogram contracts: bucket counts are range sums of the per-value
//! count sequence, and sampling fills that sequence with occurrence counts.

use vstd::prelude::*;

verus! {

/// Sum of the elements of `s` with indexes in the half-open range `[a, b)`.
pub open spec fn sum_range(s: Seq<u64>, a: int, b: int) -> int
    decreases b - a,
{
    if a >= b {
        0
    } else {
        sum_range(s, a, b - 1) + s[b - 1]
    }
}

/// A range sum of unsigned counters is never negative.
pub proof fn lemma_sum_range_nonneg(s: Seq<u64>, a: int, b: int)
    requires
        0 <= a,
        b <= s.len(),
    ensures
        sum_range(s, a, b) >= 0,
    decreases b - a,
{
    if a < b {
        lemma_sum_range_nonneg(s, a, b - 1);
    }
}

/// A range sum splits at any midpoint.
pub proof fn lemma_sum_range_split(s: Seq<u64>, a: int, b: int, c: int)
    requires
        a <= b <= c,
    ensures
        sum_range(s, a, c) == sum_range(s, a, b) + sum_range(s, b, c),
    decreases c - b,
{
    if b < c {
        lemma_sum_range_split(s, a, b, c - 1);
    }
}

/// Range sums only look at the elements inside the range.
pub proof fn lemma_sum_range_pointwise(s: Seq<u64>, t: Seq<u64>, a: int, b: int)
    requires
        forall|i: int| a <= i < b ==> s[i] == t[i],
    ensures
        sum_range(s, a, b) == sum_range(t, a, b),
    decreases b - a,
{
    if a < b {
        lemma_sum_range_pointwise(s, t, a, b - 1);
    }
}

/// A range of zero counters sums to zero.
pub proof fn lemma_sum_range_zero(s: Seq<u64>, a: int, b: int)
    requires
        forall|i: int| a <= i < b ==> s[i] == 0,
    ensures
        sum_range(s, a, b) == 0,
    decreases b - a,
{
    if a < b {
        lemma_sum_range_zero(s, a, b - 1);
    }
}

/// Raising one element of the sequence by `delta` raises a range sum that
/// covers it by the same amount.
pub proof fn lemma_sum_range_update(s: Seq<u64>, a: int, b: int, i: int, v: u64)
    requires
        0 <= a <= i < b <= s.len(),
    ensures
        sum_range(s.update(i, v), a, b) == sum_range(s, a, b) - s[i] + v,
    decreases b - a,
{
    if i == b - 1 {
        lemma_sum_range_pointwise(s.update(i, v), s, a, b - 1);
    } else {
        lemma_sum_range_update(s, a, b - 1, i, v);
    }
}

/// Every element of a range is bounded by the sum over that range.
pub proof fn lemma_sum_range_element_bound(s: Seq<u64>, a: int, b: int, i: int)
    requires
        0 <= a <= i < b <= s.len(),
    ensures
        s[i] <= sum_range(s, a, b),
    decreases b - a,
{
    lemma_sum_range_nonneg(s, a, b - 1);
    if i < b - 1 {
        lemma_sum_range_element_bound(s, a, b - 1, i);
    }
}

/// A positive range sum has a positive element somewhere in the range.
pub proof fn lemma_sum_range_pos_has_element(s: Seq<u64>, a: int, b: int)
    requires
        0 <= a <= b <= s.len(),
        sum_range(s, a, b) > 0,
    ensures
        exists|i: int| a <= i < b && s[i] > 0,
    decreases b - a,
{
    if a < b {
        if s[b - 1] > 0 {
            assert(a <= b - 1 < b && s[b - 1] > 0);
        } else {
            lemma_sum_range_pos_has_element(s, a, b - 1);
        }
    }
}

/// How many entries of `s` are equal to `v`.
pub open spec fn seq_count(s: Seq<u8>, v: u8) -> nat
    decreases s.len(),
{
    if s.len() == 0 {
        0
    } else {
        seq_count(s.drop_last(), v) + if s.last() == v {
            1nat
        } else {
            0nat
        }
    }
}

/// Occurrence counting never exceeds the sequence length.
pub proof fn lemma_seq_count_le_len(s: Seq<u8>, v: u8)
    ensures
        seq_count(s, v) <= s.len(),
    decreases s.len(),
{
    if s.len() > 0 {
        lemma_seq_count_le_len(s.drop_last(), v);
    }
}

/// Appending one sample raises its own occurrence count by one and leaves
/// every other occurrence count unchanged.
pub proof fn lemma_seq_count_push(s: Seq<u8>, p: u8, v: u8)
    ensures
        seq_count(s.push(p), v) == seq_count(s, v) + if p == v {
            1nat
        } else {
            0nat
        },
{
    assert(s.push(p).drop_last() =~= s);
}

/// The 256-entry sequence of occurrence counts of a sequence of 8-bit
/// samples: entry `v` counts the samples equal to `v`.
pub open spec fn occurrence_counts(s: Seq<u8>) -> Seq<u64> {
    Seq::new(256, |v: int| seq_count(s, v as u8) as u64)
}

/// Appending one sample to `s` turns its occurrence-count sequence into a
/// single-point update.
pub proof fn lemma_occurrence_counts_push(s: Seq<u8>, p: u8)
    requires
        s.len() < u64::MAX,
    ensures
        occurrence_counts(s.push(p)) =~= occurrence_counts(s).update(
            p as int,
            (seq_count(s, p) + 1) as u64,
        ),
{
    assert forall|v: int| 0 <= v < 256 implies occurrence_counts(s.push(p))[v]
        == occurrence_counts(s).update(p as int, (seq_count(s, p) + 1) as u64)[v] by {
        lemma_seq_count_push(s, p, v as u8);
        lemma_seq_count_le_len(s, v as u8);
        lemma_seq_count_le_len(s, p);
    }
}

/// Every 8-bit sample has exactly one value, so the occurrence counts of a
/// sample sequence add up to its length.
pub proof fn lemma_occurrence_counts_total(s: Seq<u8>)
    requires
        s.len() < u64::MAX,
    ensures
        sum_range(occurrence_counts(s), 0, 256) == s.len(),
    decreases s.len(),
{
    if s.len() == 0 {
        assert forall|v: int| 0 <= v < 256 implies occurrence_counts(s)[v] == 0 by {}
        lemma_sum_range_zero(occurrence_counts(s), 0, 256);
    } else {
        let t = s.drop_last();
        let p = s.last();
        lemma_occurrence_counts_total(t);
        lemma_seq_count_le_len(t, p);
        lemma_occurrence_counts_push(t, p);
        assert(t.push(p) =~= s);
        lemma_sum_range_update(
            occurrence_counts(t),
            0,
            256,
            p as int,
            (seq_count(t, p) + 1) as u64,
        );
    }
}

} // verus!

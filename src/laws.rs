//! Properties that relate the sketch's operations, proved over their models.
use crate::error::HyperLogLogError;
use crate::estimator::{cardinality_of, zero_count};
use crate::sketch::{
    bucket_index, insert_hash_spec, merged, zeroed, HyperLogLog, HyperLogLogSerializable,
    MIN_PRECISION,
};
use crate::tobytes::ToBytes;
use vstd::arithmetic::power2::pow2;
use vstd::prelude::*;

verus! {

proof fn lemma_zeroed_count(n: nat)
    ensures
        zero_count(zeroed(n)) == n,
    decreases n,
{
    if n > 0 {
        assert(zeroed(n).drop_last() =~= zeroed((n - 1) as nat));
        lemma_zeroed_count((n - 1) as nat);
    }
}

/// A sketch whose registers are all zero, fresh or reset, estimates zero.
pub proof fn lemma_zeroed_estimates_zero(n: nat)
    ensures
        cardinality_of(zeroed(n)) == 0,
{
    lemma_zeroed_count(n);
}

/// A fresh sketch of any accepted precision estimates zero.
pub proof fn lemma_fresh_sketch_estimates_zero(p: u32)
    requires
        MIN_PRECISION <= p < usize::BITS,
    ensures
        cardinality_of(zeroed(pow2(p as nat))) == 0,
{
    lemma_zeroed_estimates_zero(pow2(p as nat));
}

/// Recording the same hash twice leaves the registers, and so the estimate,
/// as recording it once: inserting a value again changes nothing.
pub proof fn lemma_insert_hash_idempotent(regs: Seq<u8>, p: u32, h: u64)
    requires
        MIN_PRECISION <= p < usize::BITS,
        regs.len() == pow2(p as nat),
        0 <= bucket_index(h, p) < regs.len(),
    ensures
        insert_hash_spec(insert_hash_spec(regs, p, h), p, h) == insert_hash_spec(regs, p, h),
        cardinality_of(insert_hash_spec(insert_hash_spec(regs, p, h), p, h)) == cardinality_of(
            insert_hash_spec(regs, p, h),
        ),
{
}

/// Merging is commutative: both orders give the same registers and estimate.
pub proof fn lemma_merge_commutative(a: Seq<u8>, b: Seq<u8>)
    requires
        a.len() == b.len(),
    ensures
        merged(a, b) == merged(b, a),
        cardinality_of(merged(a, b)) == cardinality_of(merged(b, a)),
{
    assert(merged(a, b) =~= merged(b, a));
}

/// Merging is associative: both groupings give the same registers and estimate.
pub proof fn lemma_merge_associative(a: Seq<u8>, b: Seq<u8>, c: Seq<u8>)
    requires
        a.len() == b.len() == c.len(),
    ensures
        merged(merged(a, b), c) == merged(a, merged(b, c)),
        cardinality_of(merged(merged(a, b), c)) == cardinality_of(merged(a, merged(b, c))),
{
    assert(merged(merged(a, b), c) =~= merged(a, merged(b, c)));
}

/// Merging with an all-zero sketch of the same size changes nothing.
pub proof fn lemma_merge_with_zeroed(a: Seq<u8>)
    ensures
        merged(a, zeroed(a.len())) == a,
        cardinality_of(merged(a, zeroed(a.len()))) == cardinality_of(a),
{
    assert(merged(a, zeroed(a.len())) =~= a);
}

/// Merging with a copy of itself changes nothing.
pub proof fn lemma_merge_with_self(a: Seq<u8>)
    ensures
        merged(a, a) == a,
        cardinality_of(merged(a, a)) == cardinality_of(a),
{
    assert(merged(a, a) =~= a);
}

/// A sketch saved under a fingerprint and loaded where the loading type has
/// the same fingerprint comes back with the same precision, register count and
/// registers, so that saving it again gives the same record.
pub proof fn lemma_round_trip<T: ToBytes, S>(
    s: HyperLogLog<T, S>,
    rec: HyperLogLogSerializable,
    fingerprint: u64,
    back: Result<HyperLogLog<T, S>, HyperLogLogError>,
    again: HyperLogLogSerializable,
)
    requires
        s.wf(),
        s.serializes_to(rec, fingerprint),
        HyperLogLog::<T, S>::restores_to(rec, fingerprint, back),
        back is Ok ==> back->Ok_0.serializes_to(again, fingerprint),
    ensures
        back is Ok,
        back->Ok_0.precision() == s.precision(),
        back->Ok_0.register_count() == s.register_count(),
        back->Ok_0.registers() == s.registers(),
        again.p == rec.p,
        again.m == rec.m,
        again.registers@ == rec.registers@,
        again.fingerprint == rec.fingerprint,
{
}

/// A sketch saved under one fingerprint and loaded where the loading type's
/// fingerprint differs, another hash family or element type, is refused as a
/// hasher mismatch.
pub proof fn lemma_fingerprint_mismatch_refused<T: ToBytes, S>(
    s: HyperLogLog<T, S>,
    rec: HyperLogLogSerializable,
    fingerprint: u64,
    expected: u64,
    back: Result<HyperLogLog<T, S>, HyperLogLogError>,
)
    requires
        s.wf(),
        s.serializes_to(rec, fingerprint),
        fingerprint != expected,
        HyperLogLog::<T, S>::restores_to(rec, expected, back),
    ensures
        back == Err::<HyperLogLog<T, S>, _>(HyperLogLogError::HasherMismatch),
{
}

} // verus!

//! The sketch: registers, insertion, merging, reset, and the stored record.
use crate::error::HyperLogLogError;
use crate::estimator::{cardinality_of, estimate, estimable, MAX_REGISTERS};
use crate::hashing::{default_sip_builder, digest, fresh_hasher, write_bytes};
use crate::tobytes::ToBytes;
use std::hash::{BuildHasher, BuildHasherDefault, DefaultHasher};
use std::marker::PhantomData;
use vstd::arithmetic::power2::{lemma2_to64, lemma2_to64_rest, lemma_pow2_strictly_increases, pow2};
use vstd::prelude::*;
use vstd::utf8::encode_utf8;
use vstd::std_specs::bits::u64_leading_zeros;

verus! {

/// Smallest precision a sketch accepts.
pub const MIN_PRECISION: u32 = 4;

/// Register that a hash updates: its top `p` bits.
pub open spec fn bucket_index(h: u64, p: u32) -> int {
    (h >> ((64 - p) as u32)) as int
}

/// Rank that a hash records: one more than the number of leading zeros of the
/// bits below the bucket index, shifted to the top, and at most 64.
pub open spec fn rank(h: u64, p: u32) -> int {
    let z = u64_leading_zeros(h << p) + 1;
    if z < 64 {
        z
    } else {
        64
    }
}

/// The registers after recording the hash `h`: the register of its bucket
/// becomes the larger of its value and the hash's rank.
pub open spec fn insert_hash_spec(regs: Seq<u8>, p: u32, h: u64) -> Seq<u8> {
    let i = bucket_index(h, p);
    if regs[i] >= rank(h, p) {
        regs
    } else {
        regs.update(i, rank(h, p) as u8)
    }
}

/// Pointwise maximum of two register arrays of equal length.
pub open spec fn merged(a: Seq<u8>, b: Seq<u8>) -> Seq<u8> {
    Seq::new(a.len(), |i: int| if a[i] >= b[i] { a[i] } else { b[i] })
}

/// `n` registers at zero.
pub open spec fn zeroed(n: nat) -> Seq<u8> {
    Seq::new(n, |i: int| 0u8)
}

/// Marker hashed ahead of the element type's tag to make a fingerprint.
pub const FINGERPRINT_MARKER: &'static str = "__hyperloglog_fingerprint__";

/// A sketch as stored: precision, register count, registers, and the
/// fingerprint of the hash family and element type that built it.
#[derive(Clone, Debug, PartialEq, Eq)]
pub struct HyperLogLogSerializable {
    pub p: u32,
    pub m: usize,
    pub registers: Vec<u8>,
    pub fingerprint: u64,
}

/// A record whose fields describe a sketch: a precision in range, `m = 2^p`,
/// and `m` registers of at most 64.
pub open spec fn record_is_valid(rec: HyperLogLogSerializable) -> bool {
    &&& MIN_PRECISION <= rec.p < usize::BITS
    &&& rec.m == pow2(rec.p as nat)
    &&& rec.registers@.len() == rec.m
    &&& forall|i: int| 0 <= i < rec.registers@.len() ==> rec.registers@[i] <= 64
}

/// Whether the record's fields describe a sketch: `record_is_valid`.
pub fn is_valid_record(rec: &HyperLogLogSerializable) -> (r: bool)
    ensures
        r == record_is_valid(*rec),
{
    if rec.p < MIN_PRECISION || rec.p >= usize::BITS {
        return false;
    }
    proof {
        lemma_register_count(rec.p);
    }
    if rec.m != (1usize << rec.p) || rec.registers.len() != rec.m {
        return false;
    }
    let n = rec.registers.len();
    let mut i: usize = 0;
    while i < n
        invariant
            n == rec.registers@.len(),
            i <= n,
            forall|j: int| 0 <= j < i ==> rec.registers@[j] <= 64,
        decreases n - i,
    {
        if rec.registers[i] > 64 {
            return false;
        }
        i = i + 1;
    }
    true
}

/// A HyperLogLog sketch: an estimate of the number of distinct elements of type
/// `T` inserted, kept in `2^p` registers, each the largest rank seen among the
/// hashes that fell into it. `S` builds the hashers.
pub struct HyperLogLog<T: ToBytes, S = BuildHasherDefault<DefaultHasher>> {
    p: u32,
    m: usize,
    buckets: Vec<u8>,
    hasher_builder: S,
    _marker: PhantomData<T>,
}

impl<T: ToBytes, S> HyperLogLog<T, S> {
    /// The precision `p`.
    pub closed spec fn precision(&self) -> u32 {
        self.p
    }

    /// The register count `m`.
    pub closed spec fn register_count(&self) -> usize {
        self.m
    }

    /// The register values, one per bucket.
    pub closed spec fn registers(&self) -> Seq<u8> {
        self.buckets@
    }

    /// The builder that hashes inserted elements.
    pub closed spec fn builder(&self) -> S {
        self.hasher_builder
    }

    /// `rec` is this sketch's record under the fingerprint `fingerprint`.
    pub open spec fn serializes_to(&self, rec: HyperLogLogSerializable, fingerprint: u64) -> bool {
        &&& rec.p == self.precision()
        &&& rec.m == self.register_count()
        &&& rec.registers@ == self.registers()
        &&& rec.fingerprint == fingerprint
    }

    /// `r` is what loading `rec` gives where the loading type's fingerprint is
    /// `expected`: a record that describes no sketch is refused as such, one
    /// with another fingerprint as a hasher mismatch, and any other becomes a
    /// sketch with the record's precision and registers.
    pub open spec fn restores_to(
        rec: HyperLogLogSerializable,
        expected: u64,
        r: Result<Self, HyperLogLogError>,
    ) -> bool {
        if !record_is_valid(rec) {
            r == Err::<Self, _>(HyperLogLogError::InvalidRecord)
        } else if rec.fingerprint != expected {
            r == Err::<Self, _>(HyperLogLogError::HasherMismatch)
        } else {
            &&& r is Ok
            &&& r->Ok_0.wf()
            &&& r->Ok_0.precision() == rec.p
            &&& r->Ok_0.register_count() == rec.m
            &&& r->Ok_0.registers() == rec.registers@
        }
    }

    /// The sketch invariant: a precision in range, `m = 2^p` registers, each
    /// holding a rank of at most 64.
    pub open spec fn wf(&self) -> bool {
        &&& MIN_PRECISION <= self.precision() < usize::BITS
        &&& self.register_count() == pow2(self.precision() as nat)
        &&& self.registers().len() == self.register_count()
        &&& forall|i: int| 0 <= i < self.registers().len() ==> self.registers()[i] <= 64
    }
}

impl<T: ToBytes, S: Clone> Clone for HyperLogLog<T, S> {
    /// A copy with the same precision, register count and registers.
    fn clone(&self) -> (r: Self)
        ensures
            r.precision() == self.precision(),
            r.register_count() == self.register_count(),
            r.registers() == self.registers(),
    {
        HyperLogLog {
            p: self.p,
            m: self.m,
            buckets: self.buckets.clone(),
            hasher_builder: self.hasher_builder.clone(),
            _marker: PhantomData,
        }
    }
}

/// `1 << p` is `2^p`, and it lies between 16 and `MAX_REGISTERS`.
proof fn lemma_register_count(p: u32)
    requires
        MIN_PRECISION <= p < usize::BITS,
    ensures
        p <= 63,
        (1usize << p) == pow2(p as nat),
        16 <= pow2(p as nat) <= MAX_REGISTERS,
{
    lemma2_to64();
    lemma2_to64_rest();
    if p > 4 {
        lemma_pow2_strictly_increases(4, p as nat);
    }
    if p < 63 {
        lemma_pow2_strictly_increases(p as nat, 63);
    }
    vstd::bits::lemma_usize_pow2_no_overflow(p as nat);
    vstd::bits::lemma_usize_shl_is_mul(1, p as usize);
}

/// The top `p` bits of a hash index a register.
proof fn lemma_bucket_in_range(h: u64, p: u32)
    requires
        MIN_PRECISION <= p < usize::BITS,
    ensures
        bucket_index(h, p) < pow2(p as nat),
{
    lemma_register_count(p);
    assert(h >> ((64 - p) as u32) < (1u64 << p)) by (bit_vector)
        requires
            4 <= p <= 63,
    ;
    lemma2_to64();
    vstd::bits::lemma_u64_shl_is_mul(1, p as u64);
}

/// A wf sketch has registers the estimator accepts.
proof fn lemma_wf_estimable<T: ToBytes, S>(s: &HyperLogLog<T, S>)
    requires
        s.wf(),
    ensures
        estimable(s.registers()),
{
    lemma_register_count(s.precision());
}

impl<T: ToBytes> HyperLogLog<T, BuildHasherDefault<DefaultHasher>> {
    /// A sketch of precision `p` hashing with std's `DefaultHasher`.
    pub fn new(p: u32) -> (r: Result<Self, HyperLogLogError>)
        ensures
            p < MIN_PRECISION ==> r == Err::<Self, _>(HyperLogLogError::PrecisionBelowThreshold),
            p >= usize::BITS ==> r == Err::<Self, _>(HyperLogLogError::PrecisionTooLarge),
            MIN_PRECISION <= p < usize::BITS ==> r is Ok && r->Ok_0.wf() && r->Ok_0.precision()
                == p && r->Ok_0.registers() == zeroed(pow2(p as nat)),
    {
        Self::with_hasher(p, default_sip_builder())
    }
}

impl<T: ToBytes, S: BuildHasher + Default + Clone> HyperLogLog<T, S> {
    /// A sketch of precision `p` whose hashers `hasher_builder` builds, with all
    /// registers at zero.
    pub fn with_hasher(p: u32, hasher_builder: S) -> (r: Result<Self, HyperLogLogError>)
        ensures
            p < MIN_PRECISION ==> r == Err::<Self, _>(HyperLogLogError::PrecisionBelowThreshold),
            p >= usize::BITS ==> r == Err::<Self, _>(HyperLogLogError::PrecisionTooLarge),
            MIN_PRECISION <= p < usize::BITS ==> r is Ok && r->Ok_0.wf() && r->Ok_0.precision()
                == p && r->Ok_0.registers() == zeroed(pow2(p as nat)) && r->Ok_0.builder()
                == hasher_builder,
    {
        if p < MIN_PRECISION {
            return Err(HyperLogLogError::PrecisionBelowThreshold);
        }
        if p >= usize::BITS {
            return Err(HyperLogLogError::PrecisionTooLarge);
        }
        proof {
            lemma_register_count(p);
        }
        let m: usize = 1usize << p;
        let mut buckets: Vec<u8> = Vec::new();
        let mut i: usize = 0;
        while i < m
            invariant
                i <= m,
                buckets@ == zeroed(i as nat),
            decreases m - i,
        {
            buckets.push(0);
            i = i + 1;
            proof {
                assert(buckets@ =~= zeroed(i as nat));
            }
        }
        Ok(HyperLogLog { p, m, buckets, hasher_builder, _marker: PhantomData })
    }

    /// Records a 64-bit hash: the register of its bucket (its top `p` bits)
    /// becomes the larger of its value and the hash's rank.
    pub fn insert_hash(&mut self, hash: u64)
        requires
            old(self).wf(),
        ensures
            final(self).wf(),
            final(self).precision() == old(self).precision(),
            final(self).register_count() == old(self).register_count(),
            final(self).builder() == old(self).builder(),
            final(self).registers() == insert_hash_spec(
                old(self).registers(),
                old(self).precision(),
                hash,
            ),
    {
        let p = self.p;
        proof {
            lemma_register_count(p);
            lemma_bucket_in_range(hash, p);
        }
        let idx = (hash >> (64 - p)) as usize;
        let w = hash << p;
        let lz = w.leading_zeros();
        proof {
            vstd::std_specs::bits::axiom_u64_leading_zeros(w);
        }
        let z: u32 = lz + 1;
        let r: u8 = if z < 64 {
            z as u8
        } else {
            64
        };
        if self.buckets[idx] < r {
            self.buckets.set(idx, r);
        }
    }

    /// The hash of an element's bytes, by a fresh hasher of this sketch's builder.
    fn hash_input(&self, item: T) -> u64 {
        let bytes = item.to_bytes();
        let mut hasher = fresh_hasher(&self.hasher_builder);
        write_bytes(&mut hasher, bytes.as_slice());
        digest(&hasher)
    }

    /// Inserts an element: its bytes are hashed and the hash recorded as by
    /// `insert_hash`. What the hash is, is up to the builder's hash family.
    pub fn insert(&mut self, item: T)
        requires
            old(self).wf(),
        ensures
            final(self).wf(),
            final(self).precision() == old(self).precision(),
            final(self).register_count() == old(self).register_count(),
            final(self).builder() == old(self).builder(),
            exists|h: u64|
                final(self).registers() == #[trigger] insert_hash_spec(
                    old(self).registers(),
                    old(self).precision(),
                    h,
                ),
    {
        let hash = self.hash_input(item);
        self.insert_hash(hash);
    }

    /// The estimate of the number of distinct elements inserted.
    pub fn calculate_cardinality(&self) -> (r: u64)
        requires
            self.wf(),
        ensures
            r as int == cardinality_of(self.registers()),
    {
        proof {
            lemma_wf_estimable(self);
        }
        estimate(&self.buckets)
    }

    /// Merges `other` into this sketch: each register becomes the larger of the
    /// two. Sketches of different precisions are refused and left as they are.
    pub fn merge(&mut self, other: &Self) -> (r: Result<(), HyperLogLogError>)
        requires
            old(self).wf(),
            other.wf(),
        ensures
            final(self).wf(),
            final(self).precision() == old(self).precision(),
            final(self).register_count() == old(self).register_count(),
            final(self).builder() == old(self).builder(),
            old(self).precision() != other.precision() ==> r == Err::<(), _>(
                HyperLogLogError::MisMatchedPrecision(old(self).precision(), other.precision()),
            ) && final(self).registers() == old(self).registers(),
            old(self).precision() == other.precision() ==> r is Ok && final(self).registers()
                == merged(old(self).registers(), other.registers()),
    {
        if self.p != other.p {
            return Err(HyperLogLogError::MisMatchedPrecision(self.p, other.p));
        }
        let n = other.buckets.len();
        let mut i: usize = 0;
        while i < n
            invariant
                self.wf(),
                other.wf(),
                n == other.registers().len() == self.registers().len() == old(
                    self,
                ).registers().len(),
                self.precision() == old(self).precision(),
                self.register_count() == old(self).register_count(),
                self.builder() == old(self).builder(),
                i <= n,
                forall|j: int|
                    0 <= j < i ==> self.registers()[j] == merged(
                        old(self).registers(),
                        other.registers(),
                    )[j],
                forall|j: int| i <= j < n ==> self.registers()[j] == old(self).registers()[j],
            decreases n - i,
        {
            let theirs = other.buckets[i];
            if self.buckets[i] < theirs {
                self.buckets.set(i, theirs);
            }
            i = i + 1;
        }
        proof {
            assert(self.registers() =~= merged(old(self).registers(), other.registers()));
        }
        Ok(())
    }

    /// Sets every register back to zero; the precision is kept.
    pub fn reset(&mut self)
        requires
            old(self).wf(),
        ensures
            final(self).wf(),
            final(self).precision() == old(self).precision(),
            final(self).register_count() == old(self).register_count(),
            final(self).builder() == old(self).builder(),
            final(self).registers() == zeroed(old(self).register_count() as nat),
    {
        let n = self.buckets.len();
        let mut i: usize = 0;
        while i < n
            invariant
                self.wf(),
                n == self.registers().len(),
                self.precision() == old(self).precision(),
                self.register_count() == old(self).register_count(),
                self.builder() == old(self).builder(),
                i <= n,
                forall|j: int| 0 <= j < i ==> self.registers()[j] == 0,
            decreases n - i,
        {
            self.buckets.set(i, 0);
            i = i + 1;
        }
        proof {
            assert(self.registers() =~= zeroed(old(self).register_count() as nat));
        }
    }

    /// What a fingerprint hashes, in order: the marker's bytes, then the
    /// bytes of the element type's tag.
    pub fn fingerprint_input() -> (r: (&'static [u8], &'static [u8]))
        ensures
            r.0@ == encode_utf8(FINGERPRINT_MARKER@),
            r.1@ == encode_utf8(T::TYPE_ID@),
    {
        (FINGERPRINT_MARKER.as_bytes(), T::TYPE_ID.as_bytes())
    }

    /// The fingerprint of this sketch type: a fresh default builder of `S`
    /// hashes the two parts of `fingerprint_input`, one write each.
    pub fn fingerprint() -> u64 {
        let builder = S::default();
        let (marker, tag) = Self::fingerprint_input();
        let mut hasher = fresh_hasher(&builder);
        write_bytes(&mut hasher, marker);
        write_bytes(&mut hasher, tag);
        digest(&hasher)
    }

    /// The record of this sketch under the fingerprint `fingerprint`.
    pub fn to_record(&self, fingerprint: u64) -> (r: HyperLogLogSerializable)
        ensures
            self.serializes_to(r, fingerprint),
    {
        HyperLogLogSerializable {
            p: self.p,
            m: self.m,
            registers: self.buckets.clone(),
            fingerprint,
        }
    }

    /// The record of this sketch under its type's fingerprint.
    pub fn serialize(&self) -> (r: HyperLogLogSerializable)
        ensures
            self.serializes_to(r, r.fingerprint),
    {
        self.to_record(Self::fingerprint())
    }

    /// Loads `rec` where the loading type's fingerprint is `expected`; the
    /// sketch hashes with `hasher_builder`.
    pub fn restore(rec: HyperLogLogSerializable, expected: u64, hasher_builder: S) -> (r: Result<
        Self,
        HyperLogLogError,
    >)
        ensures
            Self::restores_to(rec, expected, r),
            r is Ok ==> r->Ok_0.builder() == hasher_builder,
    {
        if !is_valid_record(&rec) {
            return Err(HyperLogLogError::InvalidRecord);
        }
        if rec.fingerprint != expected {
            return Err(HyperLogLogError::HasherMismatch);
        }
        Ok(HyperLogLog {
            p: rec.p,
            m: rec.m,
            buckets: rec.registers,
            hasher_builder,
            _marker: PhantomData,
        })
    }

    /// Loads `rec` as a sketch of this type: its fingerprint must be this
    /// type's, and the sketch hashes with a default builder of `S`.
    pub fn deserialize(rec: HyperLogLogSerializable) -> (r: Result<Self, HyperLogLogError>)
        ensures
            exists|expected: u64| #[trigger] Self::restores_to(rec, expected, r),
    {
        let expected = Self::fingerprint();
        Self::restore(rec, expected, S::default())
    }

    /// A copy of the registers.
    pub fn get_buckets(&self) -> (r: Vec<u8>)
        ensures
            r@ == self.registers(),
    {
        self.buckets.clone()
    }

    /// The precision `p`.
    pub fn get_p(&self) -> (r: u32)
        ensures
            r == self.precision(),
    {
        self.p
    }

    /// The register count `m = 2^p`.
    pub fn get_m(&self) -> (r: usize)
        ensures
            r == self.register_count(),
    {
        self.m
    }
}

} // verus!

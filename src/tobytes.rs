//! The byte encodings that elements are hashed by.
use vstd::arithmetic::power::pow;
use vstd::prelude::*;
use vstd::utf8::encode_utf8;

verus! {

/// Byte `i` of `x` counted from the least significant end.
pub open spec fn byte_at(x: int, i: nat) -> u8 {
    ((x / pow(256, i)) % 256) as u8
}

/// The `n` least significant bytes of `x`, lowest first.
pub open spec fn le_bytes_of(x: int, n: nat) -> Seq<u8> {
    Seq::new(n, |i: int| byte_at(x, i as nat))
}

/// Writes the `n` least significant bytes of `x` in little-endian order.
pub fn le_bytes(x: u128, n: usize) -> (r: Vec<u8>)
    requires
        n <= 16,
    ensures
        r@ == le_bytes_of(x as int, n as nat),
{
    let mut out: Vec<u8> = Vec::new();
    let mut v: u128 = x;
    let mut i: usize = 0;
    proof {
        vstd::arithmetic::power::lemma_pow0(256);
    }
    while i < n
        invariant
            i <= n,
            v as int == x as int / pow(256, i as nat),
            out@ == le_bytes_of(x as int, i as nat),
        decreases n - i,
    {
        let b = (v % 256) as u8;
        proof {
            vstd::arithmetic::power::lemma_pow_positive(256, i as nat);
            vstd::arithmetic::div_mod::lemma_div_denominator(x as int, pow(256, i as nat), 256);
            vstd::arithmetic::power::lemma_pow1(256);
            vstd::arithmetic::power::lemma_pow_adds(256, i as nat, 1);
            assert(out@.push(b) =~= le_bytes_of(x as int, (i + 1) as nat));
        }
        out.push(b);
        v = v / 256;
        i = i + 1;
    }
    out
}

/// The UTF-8 bytes of `s`.
pub fn utf8_bytes(s: &str) -> (r: Vec<u8>)
    ensures
        r@ == encode_utf8(s@),
{
    vstd::slice::slice_to_vec(s.as_bytes())
}

/// A canonical byte encoding of a value, and a tag naming the value's type.
///
/// The bytes are what the sketch hashes. The tag never enters the hash of an
/// element: it only enters the fingerprint of a serialized sketch, so that a
/// sketch of one element type cannot be loaded as a sketch of another.
pub trait ToBytes {
    fn to_bytes(&self) -> Vec<u8>;

    const TYPE_ID: &'static str;
}

/// The single byte of the value.
impl ToBytes for u8 {
    fn to_bytes(&self) -> Vec<u8> {
        vec![*self]
    }

    const TYPE_ID: &'static str = "u8";
}

/// Little-endian bytes.
impl ToBytes for u16 {
    fn to_bytes(&self) -> Vec<u8> {
        le_bytes(*self as u128, 2)
    }

    const TYPE_ID: &'static str = "u16";
}

/// Little-endian bytes.
impl ToBytes for u32 {
    fn to_bytes(&self) -> Vec<u8> {
        le_bytes(*self as u128, 4)
    }

    const TYPE_ID: &'static str = "u32";
}

/// Little-endian bytes.
impl ToBytes for u64 {
    fn to_bytes(&self) -> Vec<u8> {
        le_bytes(*self as u128, 8)
    }

    const TYPE_ID: &'static str = "u64";
}

/// Little-endian bytes.
impl ToBytes for u128 {
    fn to_bytes(&self) -> Vec<u8> {
        le_bytes(*self as u128, 16)
    }

    const TYPE_ID: &'static str = "u128";
}

/// The single byte of the value.
impl ToBytes for i8 {
    fn to_bytes(&self) -> Vec<u8> {
        vec![*self as u8]
    }

    const TYPE_ID: &'static str = "i8";
}

/// Little-endian bytes.
impl ToBytes for i16 {
    fn to_bytes(&self) -> Vec<u8> {
        le_bytes((*self as u16) as u128, 2)
    }

    const TYPE_ID: &'static str = "i16";
}

/// Little-endian bytes.
impl ToBytes for i32 {
    fn to_bytes(&self) -> Vec<u8> {
        le_bytes((*self as u32) as u128, 4)
    }

    const TYPE_ID: &'static str = "i32";
}

/// Little-endian bytes.
impl ToBytes for i64 {
    fn to_bytes(&self) -> Vec<u8> {
        le_bytes((*self as u64) as u128, 8)
    }

    const TYPE_ID: &'static str = "i64";
}

/// Little-endian bytes.
impl ToBytes for i128 {
    fn to_bytes(&self) -> Vec<u8> {
        le_bytes(*self as u128, 16)
    }

    const TYPE_ID: &'static str = "i128";
}

/// The UTF-8 bytes of the text.
impl ToBytes for &str {
    fn to_bytes(&self) -> Vec<u8> {
        utf8_bytes(self)
    }

    const TYPE_ID: &'static str = "&str";
}

/// The UTF-8 bytes of the text.
impl ToBytes for String {
    fn to_bytes(&self) -> Vec<u8> {
        utf8_bytes(self.as_str())
    }

    const TYPE_ID: &'static str = "String";
}

} // verus!

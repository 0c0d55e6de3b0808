//! The calls into std's hashing traits that the sketch relies on.
use std::hash::{BuildHasher, BuildHasherDefault, DefaultHasher, Hasher};
use vstd::prelude::*;

verus! {

#[verifier::external_type_specification]
#[verifier::external_body]
#[verifier::reject_recursive_types(H)]
pub struct ExBuildHasherDefault<H>(BuildHasherDefault<H>);

/// Relies on `BuildHasherDefault::default`: a builder of `DefaultHasher`s.
#[verifier::external_body]
pub(crate) fn default_sip_builder() -> BuildHasherDefault<DefaultHasher> {
    BuildHasherDefault::default()
}

/// Relies on `BuildHasher::build_hasher`: a fresh hasher of the builder's
/// family. Nothing is stated of it: a family may be seeded per builder.
#[verifier::external_body]
pub(crate) fn fresh_hasher<S: BuildHasher>(builder: &S) -> S::Hasher {
    builder.build_hasher()
}

/// Relies on `Hasher::write`: feeds `bytes` to the hasher.
#[verifier::external_body]
pub(crate) fn write_bytes<H: Hasher>(hasher: &mut H, bytes: &[u8]) {
    hasher.write(bytes)
}

/// Relies on `Hasher::finish`: the digest of what was written. Nothing is
/// stated of it: it is whatever the hash family computes.
#[verifier::external_body]
pub(crate) fn digest<H: Hasher>(hasher: &H) -> u64 {
    hasher.finish()
}

} // verus!

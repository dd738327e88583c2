//! Streaming hash accumulators: one tagged variant per supported algorithm,
//! with a uniform update/finish contract. Each accumulator carries, as ghost
//! state, the sequence of bytes it has absorbed, so that the digest can be
//! stated as a function of exactly those bytes — independent of how they were
//! chunked across `update` calls.

use vstd::prelude::*;
use xxhash_rust::xxh3::Xxh3;
use xxhash_rust::xxh64::Xxh64;

use crate::text::hex_chars;
use crate::text::hex_string;

verus! {

#[verifier::external_type_specification]
#[verifier::external_body]
pub struct ExXxh64(Xxh64);

#[verifier::external_type_specification]
#[verifier::external_body]
pub struct ExXxh3(Xxh3);

/// The 64-bit digest that the xxh64 algorithm (seed zero) assigns to a byte
/// sequence.
pub uninterp spec fn xxh64_digest_of(bytes: Seq<u8>) -> u64;

/// The 128-bit digest that the xxh3 algorithm (default secret, seed zero)
/// assigns to a byte sequence.
pub uninterp spec fn xxh3_digest128_of(bytes: Seq<u8>) -> u128;

/// A supported algorithm, as selected through the registry.
#[derive(Clone, Copy, PartialEq, Eq, Structural, Debug)]
pub enum HashAlgorithm {
    Xxh64,
    Xxh3,
}

/// Streaming xxh64 state together with the bytes it has absorbed.
pub struct Xxh64Acc {
    inner: Xxh64,
    fed: Ghost<Seq<u8>>,
}

impl Xxh64Acc {
    /// Every byte this state has absorbed, in order.
    pub closed spec fn fed(self) -> Seq<u8> {
        self.fed@
    }
}

/// Streaming xxh3 state together with the bytes it has absorbed.
pub struct Xxh3Acc {
    inner: Xxh3,
    fed: Ghost<Seq<u8>>,
}

impl Xxh3Acc {
    /// Every byte this state has absorbed, in order.
    pub closed spec fn fed(self) -> Seq<u8> {
        self.fed@
    }
}

/// Relies on `Xxh64::new`: a fresh state that has absorbed no bytes.
#[verifier::external_body]
pub fn new_xxh64() -> (a: Xxh64Acc)
    ensures
        a.fed() == Seq::<u8>::empty(),
{
    Xxh64Acc { inner: Xxh64::new(0), fed: Ghost(Seq::empty()) }
}

/// Relies on `Xxh64::update`: absorbs the chunk after everything absorbed
/// before it.
#[verifier::external_body]
fn xxh64_update(a: &mut Xxh64Acc, data: &[u8])
    ensures
        final(a).fed() == old(a).fed() + data@,
{
    a.inner.update(data);
}

/// Relies on `Xxh64::digest`: the digest is a function of the absorbed bytes
/// alone.
#[verifier::external_body]
fn xxh64_digest(a: &Xxh64Acc) -> (d: u64)
    ensures
        d == xxh64_digest_of(a.fed()),
{
    a.inner.digest()
}

/// Relies on `Xxh3::new`: a fresh state that has absorbed no bytes.
#[verifier::external_body]
pub fn new_xxh3() -> (a: Xxh3Acc)
    ensures
        a.fed() == Seq::<u8>::empty(),
{
    Xxh3Acc { inner: Xxh3::new(), fed: Ghost(Seq::empty()) }
}

/// Relies on `Xxh3::update`: absorbs the chunk after everything absorbed
/// before it.
#[verifier::external_body]
fn xxh3_update(a: &mut Xxh3Acc, data: &[u8])
    ensures
        final(a).fed() == old(a).fed() + data@,
{
    a.inner.update(data);
}

/// Relies on `Xxh3::digest128`: the digest is a function of the absorbed
/// bytes alone.
#[verifier::external_body]
fn xxh3_digest128(a: &Xxh3Acc) -> (d: u128)
    ensures
        d == xxh3_digest128_of(a.fed()),
{
    a.inner.digest128()
}

/// The digest string an algorithm reports for a byte sequence: fixed-width
/// uppercase hexadecimal, sized to the algorithm's native output width.
pub open spec fn digest_chars(alg: HashAlgorithm, bytes: Seq<u8>) -> Seq<char> {
    match alg {
        HashAlgorithm::Xxh64 => hex_chars(xxh64_digest_of(bytes) as nat, 16),
        HashAlgorithm::Xxh3 => hex_chars(xxh3_digest128_of(bytes) as nat, 32),
    }
}

/// A per-file, per-algorithm streaming digest state.
pub enum HasherWrapper {
    Xxh64(Xxh64Acc),
    Xxh3(Xxh3Acc),
}

impl HasherWrapper {
    /// The algorithm this accumulator runs.
    pub closed spec fn alg(self) -> HashAlgorithm {
        match self {
            HasherWrapper::Xxh64(_) => HashAlgorithm::Xxh64,
            HasherWrapper::Xxh3(_) => HashAlgorithm::Xxh3,
        }
    }

    /// Every byte this accumulator has absorbed, in order.
    pub closed spec fn fed(self) -> Seq<u8> {
        match self {
            HasherWrapper::Xxh64(a) => a.fed(),
            HasherWrapper::Xxh3(a) => a.fed(),
        }
    }

    /// A fresh accumulator for the given algorithm.
    pub fn new(alg: HashAlgorithm) -> (r: Self)
        ensures
            r.alg() == alg,
            r.fed() == Seq::<u8>::empty(),
    {
        match alg {
            HashAlgorithm::Xxh64 => HasherWrapper::Xxh64(new_xxh64()),
            HashAlgorithm::Xxh3 => HasherWrapper::Xxh3(new_xxh3()),
        }
    }

    /// Folds a chunk of bytes into the running state. Chunk boundaries leave
    /// no trace: only the concatenation of all absorbed bytes matters.
    pub fn update(&mut self, data: &[u8])
        ensures
            final(self).alg() == old(self).alg(),
            final(self).fed() == old(self).fed() + data@,
    {
        match self {
            HasherWrapper::Xxh64(a) => xxh64_update(a, data),
            HasherWrapper::Xxh3(a) => xxh3_update(a, data),
        }
    }

    /// The digest of everything absorbed so far, as fixed-width uppercase
    /// hexadecimal.
    pub fn finish(&self) -> (s: String)
        ensures
            s@ == digest_chars(self.alg(), self.fed()),
    {
        match self {
            HasherWrapper::Xxh64(a) => {
                let d = xxh64_digest(a);
                hex_string(d as u128, 16)
            },
            HasherWrapper::Xxh3(a) => {
                let d = xxh3_digest128(a);
                hex_string(d, 32)
            },
        }
    }
}

} // verus!

//! Fingerprint strategies.
//!
//! A fingerprint is a comparable value derived from one input under the
//! selected strategy. The digest strategy hashes the input's full byte
//! content with the 64-bit FNV-1a hash, fed incrementally so that content
//! is streamed rather than held whole; the naive strategy uses the input's
//! literal identifier and never reads content.

use vstd::prelude::*;

verus! {

/// FNV-1a 64-bit offset basis: the accumulator value for empty content.
pub const FNV_OFFSET_BASIS: u64 = 0xcbf2_9ce4_8422_2325;

/// FNV-1a 64-bit prime.
pub const FNV_PRIME: u64 = 0x100_0000_01b3;

/// The closed set of fingerprinting strategies.
#[derive(Clone, Copy, Debug, PartialEq, Eq, Structural)]
pub enum FilterKind {
    /// Fingerprint is the FNV-1a digest of the input's full byte content.
    Digest,
    /// Fingerprint is the input's literal identifier; content is never read.
    Naive,
}

/// One FNV-1a step: absorb a single byte into the accumulator.
pub open spec fn fnv_step(acc: u64, byte: u8) -> u64 {
    vstd::wrapping::u64_specs::wrapping_mul(acc ^ (byte as u64), FNV_PRIME)
}

/// Absorb a byte sequence into an FNV-1a accumulator, left to right.
pub open spec fn fnv_acc(acc: u64, s: Seq<u8>) -> u64
    decreases s.len(),
{
    if s.len() == 0 {
        acc
    } else {
        fnv_step(fnv_acc(acc, s.drop_last()), s.last())
    }
}

/// The FNV-1a 64-bit digest of a byte sequence.
pub open spec fn fnv1a(s: Seq<u8>) -> u64 {
    fnv_acc(FNV_OFFSET_BASIS, s)
}

/// Absorbing a concatenation equals absorbing the parts in order: the
/// digest of streamed content does not depend on how the stream was
/// chunked.
pub proof fn lemma_fnv_acc_concat(acc: u64, s1: Seq<u8>, s2: Seq<u8>)
    ensures
        fnv_acc(acc, s1 + s2) == fnv_acc(fnv_acc(acc, s1), s2),
    decreases s2.len(),
{
    if s2.len() == 0 {
        assert(s1 + s2 =~= s1);
    } else {
        lemma_fnv_acc_concat(acc, s1, s2.drop_last());
        assert((s1 + s2).drop_last() =~= s1 + s2.drop_last());
        assert((s1 + s2).last() == s2.last());
    }
}

/// The digest of empty content is defined and stable.
pub proof fn lemma_empty_digest_defined()
    ensures
        fnv1a(Seq::<u8>::empty()) == FNV_OFFSET_BASIS,
{
}

/// An incremental FNV-1a digest accumulator.
///
/// Content is fed in bounded chunks; the state after any sequence of
/// updates is the accumulator over the concatenation of the chunks, so a
/// caller can stream arbitrarily large content without holding it whole.
pub struct DigestState {
    acc: u64,
}

impl DigestState {
    /// The current accumulator value.
    pub closed spec fn state(&self) -> u64 {
        self.acc
    }

    /// A fresh accumulator, positioned at the digest of empty content.
    pub fn new() -> (r: DigestState)
        ensures
            r.state() == FNV_OFFSET_BASIS,
    {
        DigestState { acc: FNV_OFFSET_BASIS }
    }

    /// Absorb one chunk of content.
    pub fn update(&mut self, chunk: &[u8])
        ensures
            final(self).state() == fnv_acc(old(self).state(), chunk@),
    {
        let mut i: usize = 0;
        while i < chunk.len()
            invariant
                i <= chunk.len(),
                self.acc == fnv_acc(old(self).state(), chunk@.take(i as int)),
            decreases chunk.len() - i,
        {
            let b = chunk[i];
            self.acc = (self.acc ^ (b as u64)).wrapping_mul(FNV_PRIME);
            proof {
                assert(chunk@.take(i + 1 as int).drop_last() =~= chunk@.take(i as int));
                assert(chunk@.take(i + 1 as int).last() == chunk@[i as int]);
            }
            i = i + 1;
        }
        proof {
            assert(chunk@.take(chunk@.len() as int) =~= chunk@);
        }
    }

    /// The finished digest: the accumulator over everything absorbed.
    pub fn finish(&self) -> (r: u64)
        ensures
            r == self.state(),
    {
        self.acc
    }
}

/// The FNV-1a digest of content held whole in memory.
pub fn digest_bytes(content: &[u8]) -> (r: u64)
    ensures
        r == fnv1a(content@),
{
    let mut st = DigestState::new();
    st.update(content);
    st.finish()
}

/// The comparable key derived from one input under one strategy.
#[derive(Debug)]
pub enum Fingerprint {
    /// Naive strategy: the input's literal identifier, taken verbatim, so
    /// equality holds exactly for equal identifiers.
    Ident(String),
    /// Digest strategy: the FNV-1a digest of the input's byte content.
    Digest(u64),
}

/// The mathematical value of a fingerprint.
pub enum FingerprintModel {
    Ident(Seq<char>),
    Digest(u64),
}

impl View for Fingerprint {
    type V = FingerprintModel;

    open spec fn view(&self) -> FingerprintModel {
        match self {
            Fingerprint::Ident(s) => FingerprintModel::Ident(s@),
            Fingerprint::Digest(d) => FingerprintModel::Digest(*d),
        }
    }
}

/// The fingerprint an input yields under a strategy: the identifier alone
/// under the naive strategy, the content digest under the digest strategy.
pub open spec fn fingerprint_model(
    kind: FilterKind,
    ident: Seq<char>,
    content: Seq<u8>,
) -> FingerprintModel {
    match kind {
        FilterKind::Naive => FingerprintModel::Ident(ident),
        FilterKind::Digest => FingerprintModel::Digest(fnv1a(content)),
    }
}

/// Whether two fingerprints are equal as values.
pub fn fingerprint_eq(a: &Fingerprint, b: &Fingerprint) -> (r: bool)
    ensures
        r == (a@ == b@),
{
    match (a, b) {
        (Fingerprint::Ident(x), Fingerprint::Ident(y)) => *x == *y,
        (Fingerprint::Digest(x), Fingerprint::Digest(y)) => *x == *y,
        _ => false,
    }
}

/// The naive fingerprint of an input: its identifier, content untouched.
pub fn fingerprint_naive(ident: &String) -> (r: Fingerprint)
    ensures
        r@ == fingerprint_model(FilterKind::Naive, ident@, Seq::<u8>::empty()),
{
    Fingerprint::Ident(ident.clone())
}

/// The digest fingerprint of content held whole in memory.
pub fn fingerprint_digest(content: &[u8]) -> (r: Fingerprint)
    ensures
        r@ == fingerprint_model(FilterKind::Digest, Seq::<char>::empty(), content@),
{
    Fingerprint::Digest(digest_bytes(content))
}

/// The digest fingerprint of streamed content, from a finished accumulator.
pub fn fingerprint_of_digest(digest: u64) -> (r: Fingerprint)
    ensures
        r@ == FingerprintModel::Digest(digest),
{
    Fingerprint::Digest(digest)
}

} // verus!

//! The uniqueness engine.
//!
//! The engine consumes fingerprints one at a time, in the exact order the
//! configuration supplies the inputs, keeps the set of fingerprints already
//! observed, and classifies each input as the first occurrence of its
//! fingerprint or a repeat. Memory grows with the number of distinct
//! fingerprints, never with total content size.

use vstd::prelude::*;
use crate::filters::{FilterKind, Fingerprint, FingerprintModel, fingerprint_naive, fingerprint_digest};

verus! {

/// The verdict on one input: first occurrence of its fingerprint, or repeat.
#[derive(Clone, Copy, Debug, PartialEq, Eq, Structural)]
pub enum Classification {
    Unique,
    Duplicate,
}

/// The verdict on one input together with that input's identifier, emitted
/// in processing order.
#[derive(Debug)]
pub struct ClassificationResult {
    /// The identifier of the input this verdict is about.
    pub input: String,
    /// First occurrence or repeat.
    pub class: Classification,
}

/// Position `i` holds the first occurrence of its fingerprint in `fps`.
pub open spec fn first_occurrence<F>(fps: Seq<F>, i: int) -> bool {
    forall|j: int| 0 <= j < i ==> fps[j] != fps[i]
}

/// The verdict on position `i` of a fingerprint sequence: unique exactly
/// when no earlier position carries an equal fingerprint.
pub open spec fn classify_at<F>(fps: Seq<F>, i: int) -> Classification {
    if first_occurrence(fps, i) {
        Classification::Unique
    } else {
        Classification::Duplicate
    }
}

/// The whole classification sequence of a fingerprint sequence, index for
/// index in input order.
pub open spec fn classification_of<F>(fps: Seq<F>) -> Seq<Classification> {
    Seq::new(fps.len(), |i: int| classify_at(fps, i))
}

/// The fingerprint sequence a run over `inputs` observes under the naive
/// strategy: each input's identifier, in order.
pub open spec fn naive_models(inputs: Seq<String>) -> Seq<FingerprintModel> {
    Seq::new(inputs.len(), |i: int| FingerprintModel::Ident(inputs[i]@))
}

/// The fingerprint sequence a run over `contents` observes under the
/// digest strategy: each content's FNV-1a digest, in order.
pub open spec fn digest_models(contents: Seq<Vec<u8>>) -> Seq<FingerprintModel> {
    Seq::new(contents.len(), |i: int| FingerprintModel::Digest(crate::filters::fnv1a(contents[i]@)))
}

/// First-seen wins: of two positions with equal fingerprints, the later is
/// a duplicate, and the earliest occurrence of any fingerprint is unique.
pub proof fn lemma_first_seen_wins<F>(fps: Seq<F>, i: int, j: int)
    requires
        0 <= i < j < fps.len(),
        fps[i] == fps[j],
    ensures
        classification_of(fps)[j] == Classification::Duplicate,
        first_occurrence(fps, i) ==> classification_of(fps)[i] == Classification::Unique,
{
    assert(!first_occurrence(fps, j)) by {
        assert(0 <= i < j && fps[i] == fps[j]);
    }
}

/// The classification sequence is as long as the fingerprint sequence and
/// aligned with it index for index: position `i` of the output is the
/// verdict on position `i` of the input order.
pub proof fn lemma_order_preserved<F>(fps: Seq<F>)
    ensures
        classification_of(fps).len() == fps.len(),
        forall|i: int| 0 <= i < fps.len() ==> classification_of(fps)[i] == classify_at(fps, i),
{
}

/// The mathematical values of a sequence of stored fingerprints.
pub open spec fn views_of(seen: Seq<Fingerprint>) -> Seq<FingerprintModel> {
    seen.map_values(|f: Fingerprint| f@)
}

/// The engine's state: the strategy for the run and the set of
/// fingerprints observed so far, with the full observation history as its
/// mathematical shadow.
pub struct UniquenessEngine {
    filter: FilterKind,
    seen: Vec<Fingerprint>,
    total: usize,
    history: Ghost<Seq<FingerprintModel>>,
}

impl UniquenessEngine {
    /// Every fingerprint observed so far, in order.
    pub closed spec fn history(&self) -> Seq<FingerprintModel> {
        self.history@
    }

    /// The strategy this engine was configured with.
    pub closed spec fn filter_kind(&self) -> FilterKind {
        self.filter
    }

    /// The stored fingerprints are exactly the distinct fingerprints of
    /// the history, each held once.
    pub closed spec fn wf(&self) -> bool {
        &&& views_of(self.seen@).no_duplicates()
        &&& views_of(self.seen@).to_set() == self.history@.to_set()
        &&& self.total == self.history@.len()
    }

    /// A fresh engine for one run: nothing observed yet.
    pub fn new(filter: FilterKind) -> (r: UniquenessEngine)
        ensures
            r.wf(),
            r.filter_kind() == filter,
            r.history() == Seq::<FingerprintModel>::empty(),
    {
        let r = UniquenessEngine {
            filter,
            seen: Vec::new(),
            total: 0,
            history: Ghost(Seq::empty()),
        };
        proof {
            assert(views_of(r.seen@) =~= Seq::<FingerprintModel>::empty());
            assert(views_of(r.seen@).to_set() =~= r.history@.to_set());
        }
        r
    }

    /// Whether an equal fingerprint has been observed before.
    fn contains_fp(&self, fp: &Fingerprint) -> (r: bool)
        requires
            self.wf(),
        ensures
            r == self.history().contains(fp@),
    {
        let ghost views = views_of(self.seen@);
        let mut i: usize = 0;
        while i < self.seen.len()
            invariant
                self.wf(),
                i <= self.seen@.len(),
                views == views_of(self.seen@),
                forall|k: int| 0 <= k < i ==> views[k] != fp@,
            decreases self.seen@.len() - i,
        {
            if crate::filters::fingerprint_eq(&self.seen[i], fp) {
                proof {
                    assert(views[i as int] == fp@);
                    assert(views.contains(fp@));
                    assert(views.to_set().contains(fp@));
                    assert(self.history@.to_set().contains(fp@));
                    assert(self.history@.contains(fp@));
                }
                return true;
            }
            i = i + 1;
        }
        proof {
            assert(!views.to_set().contains(fp@)) by {
                if views.to_set().contains(fp@) {
                    assert(views.contains(fp@));
                    let k = choose|k: int| 0 <= k < views.len() && views[k] == fp@;
                    assert(views[k] != fp@);
                }
            }
        }
        false
    }

    /// Observe the next input's fingerprint: record it and report whether
    /// this is its first occurrence. The verdict is exactly the one the
    /// classification sequence assigns to this position of the history.
    pub fn observe(&mut self, fp: Fingerprint) -> (unique: bool)
        requires
            old(self).wf(),
            old(self).history().len() < usize::MAX,
        ensures
            final(self).wf(),
            final(self).filter_kind() == old(self).filter_kind(),
            final(self).history() == old(self).history().push(fp@),
            unique == !old(self).history().contains(fp@),
            unique == first_occurrence(final(self).history(), old(self).history().len() as int),
    {
        let ghost old_hist = self.history@;
        let ghost old_views = views_of(self.seen@);
        let ghost m = fp@;
        let found = self.contains_fp(&fp);
        self.total = self.total + 1;
        proof {
            self.history@ = old_hist.push(m);
            assert(old_hist.to_set().contains(m) <==> old_hist.contains(m));
            old_hist.lemma_push_to_set_commute(m);
        }
        if !found {
            self.seen.push(fp);
            proof {
                assert(views_of(self.seen@) =~= old_views.push(m));
                assert(!old_views.to_set().contains(m));
                assert(!old_views.contains(m)) by {
                    if old_views.contains(m) {
                        let k = choose|k: int| 0 <= k < old_views.len() && old_views[k] == m;
                        assert(old_views.to_set().contains(m));
                    }
                }
                assert(old_views.push(m).no_duplicates());
                old_views.lemma_push_to_set_commute(m);
            }
        } else {
            proof {
                assert(old_hist.to_set().insert(m) =~= old_hist.to_set());
            }
        }
        proof {
            let h = self.history@;
            let n = old_hist.len() as int;
            assert(!old_hist.contains(m) == first_occurrence(h, n)) by {
                assert(forall|j: int| 0 <= j < n ==> h[j] == old_hist[j]);
                assert(h[n] == m);
                if old_hist.contains(m) {
                    let k = choose|k: int| 0 <= k < old_hist.len() && old_hist[k] == m;
                    assert(h[k] == h[n]);
                } else {
                    assert forall|j: int| 0 <= j < n implies h[j] != h[n] by {
                        if h[j] == h[n] {
                            assert(old_hist[j] == m);
                            assert(old_hist.contains(m));
                        }
                    }
                }
            }
        }
        !found
    }

    /// How many inputs have been observed so far.
    pub fn total_count(&self) -> (r: usize)
        requires
            self.wf(),
        ensures
            r == self.history().len(),
    {
        self.total
    }

    /// The number of distinct fingerprints observed so far.
    pub fn unique_count(&self) -> (r: usize)
        requires
            self.wf(),
        ensures
            r == self.history().to_set().len(),
    {
        proof {
            let views = views_of(self.seen@);
            views.unique_seq_to_set();
        }
        self.seen.len()
    }
}

/// The fingerprint sequence one run observes: identifiers under the naive
/// strategy, content digests under the digest strategy.
pub open spec fn run_models(
    kind: FilterKind,
    inputs: Seq<String>,
    contents: Seq<Vec<u8>>,
) -> Seq<FingerprintModel> {
    match kind {
        FilterKind::Naive => naive_models(inputs),
        FilterKind::Digest => digest_models(contents),
    }
}

/// Classify every input in order under the naive strategy: the
/// fingerprints are the identifiers themselves, content is never read.
pub fn run_naive(inputs: &Vec<String>) -> (r: Vec<ClassificationResult>)
    requires
        inputs@.len() > 0,
    ensures
        r@.len() == inputs@.len(),
        forall|i: int| 0 <= i < r@.len() ==> r@[i].input@ == inputs@[i]@,
        forall|i: int| 0 <= i < r@.len() ==> r@[i].class == classify_at(naive_models(inputs@), i),
{
    let ghost fps = naive_models(inputs@);
    let mut engine = UniquenessEngine::new(FilterKind::Naive);
    let mut r: Vec<ClassificationResult> = Vec::new();
    let mut i: usize = 0;
    while i < inputs.len()
        invariant
            i <= inputs@.len(),
            fps == naive_models(inputs@),
            fps.len() == inputs@.len(),
            engine.wf(),
            engine.history() == fps.take(i as int),
            r@.len() == i,
            forall|k: int| 0 <= k < i ==> r@[k].input@ == inputs@[k]@,
            forall|k: int| 0 <= k < i ==> r@[k].class == classify_at(fps, k),
        decreases inputs@.len() - i,
    {
        let fp = fingerprint_naive(&inputs[i]);
        proof {
            assert(fp@ == fps[i as int]);
        }
        let unique = engine.observe(fp);
        proof {
            assert(fps.take(i as int).push(fps[i as int]) =~= fps.take(i + 1 as int));
            lemma_first_occurrence_in_prefix(fps, i as int);
        }
        let class = if unique {
            Classification::Unique
        } else {
            Classification::Duplicate
        };
        r.push(ClassificationResult { input: inputs[i].clone(), class });
        i = i + 1;
    }
    r
}

/// Classify every input in order under the digest strategy: the
/// fingerprints are the FNV-1a digests of the inputs' contents, given
/// parallel to the identifiers.
pub fn run_digest(inputs: &Vec<String>, contents: &Vec<Vec<u8>>) -> (r: Vec<ClassificationResult>)
    requires
        inputs@.len() > 0,
        contents@.len() == inputs@.len(),
    ensures
        r@.len() == inputs@.len(),
        forall|i: int| 0 <= i < r@.len() ==> r@[i].input@ == inputs@[i]@,
        forall|i: int| 0 <= i < r@.len() ==> r@[i].class == classify_at(digest_models(contents@), i),
{
    let ghost fps = digest_models(contents@);
    let mut engine = UniquenessEngine::new(FilterKind::Digest);
    let mut r: Vec<ClassificationResult> = Vec::new();
    let mut i: usize = 0;
    while i < inputs.len()
        invariant
            i <= inputs@.len(),
            contents@.len() == inputs@.len(),
            fps == digest_models(contents@),
            fps.len() == inputs@.len(),
            engine.wf(),
            engine.history() == fps.take(i as int),
            r@.len() == i,
            forall|k: int| 0 <= k < i ==> r@[k].input@ == inputs@[k]@,
            forall|k: int| 0 <= k < i ==> r@[k].class == classify_at(fps, k),
        decreases inputs@.len() - i,
    {
        let fp = fingerprint_digest(contents[i].as_slice());
        proof {
            assert(fp@ == fps[i as int]);
        }
        let unique = engine.observe(fp);
        proof {
            assert(fps.take(i as int).push(fps[i as int]) =~= fps.take(i + 1 as int));
            lemma_first_occurrence_in_prefix(fps, i as int);
        }
        let class = if unique {
            Classification::Unique
        } else {
            Classification::Duplicate
        };
        r.push(ClassificationResult { input: inputs[i].clone(), class });
        i = i + 1;
    }
    r
}

/// Whether a position opens a fresh fingerprint is decided by the prefix
/// up to and including it: the verdict in the truncated sequence is the
/// verdict in the whole one.
pub proof fn lemma_first_occurrence_in_prefix<F>(fps: Seq<F>, i: int)
    requires
        0 <= i < fps.len(),
    ensures
        first_occurrence(fps.take(i + 1), i) == first_occurrence(fps, i),
{
    assert(forall|j: int| 0 <= j <= i ==> fps.take(i + 1)[j] == fps[j]);
}

/// Two distinct input references with identical content diverge by
/// strategy: under the naive strategy both are unique, since the
/// identifiers differ; under the digest strategy the second is a
/// duplicate, since the content digests are equal.
pub proof fn lemma_naive_digest_divergence(id1: Seq<char>, id2: Seq<char>, content: Seq<u8>)
    requires
        id1 != id2,
    ensures
        classification_of(seq![FingerprintModel::Ident(id1), FingerprintModel::Ident(id2)])
            == seq![Classification::Unique, Classification::Unique],
        classification_of(
            seq![
                FingerprintModel::Digest(crate::filters::fnv1a(content)),
                FingerprintModel::Digest(crate::filters::fnv1a(content)),
            ],
        ) == seq![Classification::Unique, Classification::Duplicate],
{
    let nfps = seq![FingerprintModel::Ident(id1), FingerprintModel::Ident(id2)];
    let dfps = seq![
        FingerprintModel::Digest(crate::filters::fnv1a(content)),
        FingerprintModel::Digest(crate::filters::fnv1a(content)),
    ];
    assert(nfps[0] != nfps[1]);
    assert(first_occurrence(nfps, 1));
    assert(!first_occurrence(dfps, 1)) by {
        assert(dfps[0] == dfps[1]);
    }
    assert(classification_of(nfps) =~= seq![Classification::Unique, Classification::Unique]);
    assert(classification_of(dfps) =~= seq![Classification::Unique, Classification::Duplicate]);
}

/// The digest of empty content is stable: of two inputs with zero-length
/// content under the digest strategy, the later is always a duplicate.
pub proof fn lemma_empty_content_repeats(contents: Seq<Vec<u8>>, i: int, j: int)
    requires
        0 <= i < j < contents.len(),
        contents[i]@ == Seq::<u8>::empty(),
        contents[j]@ == Seq::<u8>::empty(),
    ensures
        classification_of(digest_models(contents))[j] == Classification::Duplicate,
{
    assert(digest_models(contents)[i] == digest_models(contents)[j]);
    lemma_first_seen_wins(digest_models(contents), i, j);
}

/// Classify every input of a validated configuration, in configuration
/// order. Under the digest strategy, `contents` carries each input's byte
/// content, parallel to the input list; under the naive strategy it is
/// ignored. Fails exactly on the empty input list.
pub fn classify_all(options: &crate::options::Options, contents: &Vec<Vec<u8>>) -> (r: Result<
    Vec<ClassificationResult>,
    crate::errors::RunError,
>)
    requires
        options.filter is Digest ==> contents@.len() == options.inputs@.len(),
    ensures
        r is Ok <==> options.wf(),
        r matches Err(e) ==> e is ConfigurationInvalid,
        r matches Ok(v) ==> {
            let fps = run_models(options.filter, options.inputs@, contents@);
            &&& v@.len() == options.inputs@.len()
            &&& forall|i: int| 0 <= i < v@.len() ==> v@[i].input@ == options.inputs@[i]@
            &&& forall|i: int| 0 <= i < v@.len() ==> v@[i].class == classify_at(fps, i)
        },
{
    if options.inputs.len() == 0 {
        return Err(crate::errors::RunError::ConfigurationInvalid);
    }
    match options.filter {
        FilterKind::Naive => Ok(run_naive(&options.inputs)),
        FilterKind::Digest => Ok(run_digest(&options.inputs, contents)),
    }
}

} // verus!

//! Run output: display selection and aggregate statistics.
//!
//! Display modes never change classification; they only pick which
//! verdicts are shown. Normal mode shows the inputs classified unique,
//! inverted mode the ones classified duplicate, and statistics mode
//! replaces per-input display with the final counts.

use vstd::prelude::*;
use crate::engine::{
    Classification, ClassificationResult, classification_of, classify_at, first_occurrence,
};

verus! {

/// The number of positions of `s` holding verdict `c`.
pub open spec fn count_class(s: Seq<Classification>, c: Classification) -> nat
    decreases s.len(),
{
    if s.len() == 0 {
        0
    } else {
        count_class(s.drop_last(), c) + (if s.last() == c {
            1nat
        } else {
            0nat
        })
    }
}

/// The verdicts of a result sequence, in order.
pub open spec fn classes_of(rs: Seq<ClassificationResult>) -> Seq<Classification> {
    Seq::new(rs.len(), |i: int| rs[i].class)
}

/// Aggregate counters of one run. Derived from the verdict stream alone:
/// always reconstructable from it, never independently mutated.
#[derive(Clone, Copy, Debug, PartialEq, Eq, Structural)]
pub struct RunStatistics {
    /// How many inputs were processed.
    pub total: usize,
    /// How many inputs were the first occurrence of their fingerprint.
    pub unique: usize,
    /// How many inputs repeated an earlier fingerprint.
    pub duplicate: usize,
}

/// Every verdict is unique or duplicate, so the two counts sum to the
/// sequence's length.
pub proof fn lemma_counts_partition(s: Seq<Classification>)
    ensures
        count_class(s, Classification::Unique) + count_class(s, Classification::Duplicate)
            == s.len(),
    decreases s.len(),
{
    if s.len() > 0 {
        lemma_counts_partition(s.drop_last());
    }
}

/// The unique count of a classification sequence equals the number of
/// distinct fingerprints: each fingerprint is counted exactly once, at its
/// first occurrence.
pub proof fn lemma_unique_count_is_distinct_count<F>(fps: Seq<F>)
    ensures
        count_class(classification_of(fps), Classification::Unique) == fps.to_set().len(),
    decreases fps.len(),
{
    broadcast use vstd::seq_lib::seq_to_set_is_finite;

    if fps.len() == 0 {
        assert(fps.to_set() =~= Set::<F>::empty());
    } else {
        let pre = fps.drop_last();
        let m = fps.last();
        let n = pre.len() as int;
        lemma_unique_count_is_distinct_count(pre);
        let c_all = classification_of(fps);
        let c_pre = classification_of(pre);
        assert(c_all.drop_last() =~= c_pre) by {
            assert forall|i: int| 0 <= i < n implies c_all[i] == c_pre[i] by {
                assert(first_occurrence(fps, i) == first_occurrence(pre, i)) by {
                    assert(forall|j: int| 0 <= j <= i ==> pre[j] == fps[j]);
                }
            }
        }
        assert(first_occurrence(fps, n) == !pre.contains(m)) by {
            if pre.contains(m) {
                let k = choose|k: int| 0 <= k < pre.len() && pre[k] == m;
                assert(fps[k] == fps[n]);
            } else {
                assert forall|j: int| 0 <= j < n implies fps[j] != fps[n] by {
                    if fps[j] == fps[n] {
                        assert(pre[j] == m);
                        assert(pre.contains(m));
                    }
                }
            }
        }
        assert(c_all.last() == classify_at(fps, n));
        assert(count_class(c_all, Classification::Unique) == count_class(
            c_pre,
            Classification::Unique,
        ) + (if classify_at(fps, n) == Classification::Unique {
            1nat
        } else {
            0nat
        }));
        assert(pre.push(m) =~= fps);
        pre.lemma_push_to_set_commute(m);
        if pre.contains(m) {
            assert(pre.to_set().contains(m));
            assert(pre.to_set().insert(m) =~= pre.to_set());
        } else {
            assert(!pre.to_set().contains(m)) by {
                if pre.to_set().contains(m) {
                    assert(pre.contains(m));
                }
            }
        }
    }
}

/// Determinism: the verdicts are a function of the fingerprint sequence
/// alone, so any two runs whose verdicts follow the classification of the
/// same fingerprints classify identically, input for input.
pub proof fn lemma_runs_deterministic<F>(
    fps: Seq<F>,
    r1: Seq<ClassificationResult>,
    r2: Seq<ClassificationResult>,
)
    requires
        r1.len() == fps.len(),
        r2.len() == fps.len(),
        forall|i: int| 0 <= i < r1.len() ==> r1[i].class == classify_at(fps, i),
        forall|i: int| 0 <= i < r2.len() ==> r2[i].class == classify_at(fps, i),
    ensures
        classes_of(r1) == classes_of(r2),
{
    assert forall|i: int| 0 <= i < r1.len() implies classes_of(r1)[i] == classes_of(r2)[i] by {
        assert(r1[i].class == classify_at(fps, i));
        assert(r2[i].class == classify_at(fps, i));
    }
    assert(classes_of(r1) =~= classes_of(r2));
}

/// Statistics are consistent with any run whose verdicts follow the
/// classification of its fingerprint sequence: unique plus duplicate is
/// total, and unique is the number of distinct fingerprints.
pub proof fn lemma_statistics_consistency<F>(rs: Seq<ClassificationResult>, fps: Seq<F>)
    requires
        rs.len() == fps.len(),
        forall|i: int| 0 <= i < rs.len() ==> rs[i].class == classify_at(fps, i),
    ensures
        count_class(classes_of(rs), Classification::Unique) + count_class(
            classes_of(rs),
            Classification::Duplicate,
        ) == rs.len(),
        count_class(classes_of(rs), Classification::Unique) == fps.to_set().len(),
{
    assert(classes_of(rs) =~= classification_of(fps));
    lemma_counts_partition(classes_of(rs));
    lemma_unique_count_is_distinct_count(fps);
}

/// Tally the verdict stream of one run.
pub fn compute_statistics(results: &Vec<ClassificationResult>) -> (r: RunStatistics)
    ensures
        r.total == results@.len(),
        r.unique == count_class(classes_of(results@), Classification::Unique),
        r.duplicate == count_class(classes_of(results@), Classification::Duplicate),
        r.total == r.unique + r.duplicate,
{
    let mut unique: usize = 0;
    let mut duplicate: usize = 0;
    let mut i: usize = 0;
    while i < results.len()
        invariant
            i <= results@.len(),
            unique == count_class(classes_of(results@).take(i as int), Classification::Unique),
            duplicate == count_class(
                classes_of(results@).take(i as int),
                Classification::Duplicate,
            ),
            unique + duplicate == i,
        decreases results@.len() - i,
    {
        proof {
            let cs = classes_of(results@);
            assert(cs.take(i + 1 as int).drop_last() =~= cs.take(i as int));
            assert(cs.take(i + 1 as int).last() == results@[i as int].class);
        }
        match results[i].class {
            Classification::Unique => {
                unique = unique + 1;
            },
            Classification::Duplicate => {
                duplicate = duplicate + 1;
            },
        }
        i = i + 1;
    }
    proof {
        assert(classes_of(results@).take(results@.len() as int) =~= classes_of(results@));
        lemma_counts_partition(classes_of(results@));
    }
    RunStatistics { total: results.len(), unique, duplicate }
}

/// Classify every input of a validated configuration and tally the
/// verdicts. The tally is the same whatever the display flags say: the
/// unique count is exactly the number of distinct fingerprints the run
/// observes, and the two counts sum to the input count.
pub fn run_statistics(options: &crate::options::Options, contents: &Vec<Vec<u8>>) -> (r: Result<
    RunStatistics,
    crate::errors::RunError,
>)
    requires
        options.filter is Digest ==> contents@.len() == options.inputs@.len(),
    ensures
        r is Ok <==> options.wf(),
        r matches Err(e) ==> e is ConfigurationInvalid,
        r matches Ok(s) ==> {
            let fps = crate::engine::run_models(options.filter, options.inputs@, contents@);
            &&& s.total == options.inputs@.len()
            &&& s.unique == fps.to_set().len()
            &&& s.unique + s.duplicate == s.total
        },
{
    match crate::engine::classify_all(options, contents) {
        Ok(results) => {
            let stats = compute_statistics(&results);
            proof {
                let fps = crate::engine::run_models(options.filter, options.inputs@, contents@);
                lemma_statistics_consistency(results@, fps);
            }
            Ok(stats)
        },
        Err(e) => Err(e),
    }
}

/// The verdict class a display mode surfaces: duplicates when inverted,
/// uniques otherwise.
pub open spec fn displayed_class(inverted: bool) -> Classification {
    if inverted {
        Classification::Duplicate
    } else {
        Classification::Unique
    }
}

/// The identifiers of the results carrying verdict `c`, in result order.
pub open spec fn displayed_idents(rs: Seq<ClassificationResult>, c: Classification) -> Seq<
    Seq<char>,
>
    decreases rs.len(),
{
    if rs.len() == 0 {
        Seq::empty()
    } else if rs.last().class == c {
        displayed_idents(rs.drop_last(), c).push(rs.last().input@)
    } else {
        displayed_idents(rs.drop_last(), c)
    }
}

/// The mathematical values of a list of identifiers.
pub open spec fn ident_views(ss: Seq<String>) -> Seq<Seq<char>> {
    ss.map_values(|s: String| s@)
}

/// The identifiers to display for one run: the inputs classified unique in
/// normal mode, the ones classified duplicate in inverted mode, in result
/// order. Classification itself is unaffected by the mode.
pub fn select_displayed(results: &Vec<ClassificationResult>, inverted: bool) -> (r: Vec<String>)
    ensures
        ident_views(r@) == displayed_idents(results@, displayed_class(inverted)),
{
    let target = if inverted {
        Classification::Duplicate
    } else {
        Classification::Unique
    };
    let mut r: Vec<String> = Vec::new();
    let mut i: usize = 0;
    while i < results.len()
        invariant
            i <= results@.len(),
            target == displayed_class(inverted),
            ident_views(r@) == displayed_idents(results@.take(i as int), target),
        decreases results@.len() - i,
    {
        proof {
            assert(results@.take(i + 1 as int).drop_last() =~= results@.take(i as int));
            assert(results@.take(i + 1 as int).last() == results@[i as int]);
        }
        let ghost r_pre = r@;
        if results[i].class == target {
            r.push(results[i].input.clone());
            proof {
                assert(ident_views(r@) =~= ident_views(r_pre).push(results@[i as int].input@));
            }
        }
        i = i + 1;
    }
    proof {
        assert(results@.take(results@.len() as int) =~= results@);
    }
    r
}

} // verus!
